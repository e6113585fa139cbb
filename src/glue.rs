//! The glue mechanic: requests to hold one body to another, settled into
//! physics joints at the end of each tick.

use vstd::prelude::*;

verus! {

/// A request that entity `holder` be rigidly joined to entity `target`; the
/// same pair names the joint made for it.
#[derive(Clone, Copy, Debug, PartialEq, Eq, Structural)]
pub struct Glue {
    pub holder: u64,
    pub target: u64,
}

/// Whether some entry of `s` belongs to `holder`.
pub open spec fn holds(s: Seq<Glue>, holder: u64) -> bool {
    exists|i: int| 0 <= i < s.len() && s[i].holder == holder
}

/// No two entries of `s` belong to the same holder.
pub open spec fn unique_holders(s: Seq<Glue>) -> bool {
    forall|i: int, j: int| 0 <= i < s.len() && 0 <= j < s.len() && i != j ==> s[i].holder != s[j].holder
}

/// The position of `holder`'s entry in `s`.
pub open spec fn index_of(s: Seq<Glue>, holder: u64) -> int {
    choose|i: int| 0 <= i < s.len() && s[i].holder == holder
}

/// How many entries of `s` join `holder` to `target`.
pub open spec fn count_of(s: Seq<Glue>, holder: u64, target: u64) -> nat
    decreases s.len(),
{
    if s.len() == 0 {
        0
    } else {
        count_of(s.drop_last(), holder, target) + if s.last() == (Glue { holder, target }) {
            1nat
        } else {
            0nat
        }
    }
}

/// The joints that a joint pass makes for the first `n` requests: one for
/// each request whose holder has no joint yet and whose target can anchor
/// one, in request order.
pub open spec fn joints_made(requests: Seq<Glue>, joints: Seq<Glue>, anchors: Seq<u64>, n: int) -> Seq<
    Glue,
>
    decreases n,
{
    if n <= 0 {
        seq![]
    } else {
        let prev = joints_made(requests, joints, anchors, n - 1);
        let g = requests[n - 1];
        if !holds(joints, g.holder) && anchors.contains(g.target) {
            prev.push(g)
        } else {
            prev
        }
    }
}

/// The first `n` joints, without those of the holders in `released`.
pub open spec fn joints_kept(joints: Seq<Glue>, released: Seq<u64>, n: int) -> Seq<Glue>
    decreases n,
{
    if n <= 0 {
        seq![]
    } else {
        let prev = joints_kept(joints, released, n - 1);
        if released.contains(joints[n - 1].holder) {
            prev
        } else {
            prev.push(joints[n - 1])
        }
    }
}

/// The glue requests in force, the joints made for them, and the holders
/// whose request was withdrawn since the last pass.
pub struct GlueState {
    pub requests: Seq<Glue>,
    pub joints: Seq<Glue>,
    pub released: Seq<u64>,
}

impl GlueState {
    /// At most one request and one joint per holder, and every joint belongs
    /// to a request in force or to a withdrawn one.
    pub open spec fn wf(self) -> bool {
        &&& unique_holders(self.requests)
        &&& unique_holders(self.joints)
        &&& forall|i: int|
            0 <= i < self.joints.len() ==> holds(self.requests, #[trigger] self.joints[i].holder)
                || self.released.contains(self.joints[i].holder)
    }

    /// Requests that `holder` be joined to `target`, in place of any earlier
    /// request of `holder`.
    pub open spec fn attach(self, holder: u64, target: u64) -> GlueState {
        GlueState {
            requests: if holds(self.requests, holder) {
                self.requests.update(index_of(self.requests, holder), Glue { holder, target })
            } else {
                self.requests.push(Glue { holder, target })
            },
            ..self
        }
    }

    /// Withdraws `holder`'s request, if it has one.
    pub open spec fn detach(self, holder: u64) -> GlueState {
        if holds(self.requests, holder) {
            GlueState {
                requests: self.requests.remove(index_of(self.requests, holder)),
                released: self.released.push(holder),
                ..self
            }
        } else {
            self
        }
    }

    /// The joint pass: a joint for each request whose holder has none yet
    /// and whose target is among `anchors`.
    pub open spec fn make_joints(self, anchors: Seq<u64>) -> GlueState {
        GlueState {
            joints: self.joints + joints_made(
                self.requests,
                self.joints,
                anchors,
                self.requests.len() as int,
            ),
            ..self
        }
    }

    /// The release pass: the joints of withdrawn requests go.
    pub open spec fn drop_joints(self) -> GlueState {
        GlueState {
            joints: joints_kept(self.joints, self.released, self.joints.len() as int),
            released: seq![],
            ..self
        }
    }

    /// The end of a tick: the joint pass, then the release pass.
    pub open spec fn settle(self, anchors: Seq<u64>) -> GlueState {
        self.make_joints(anchors).drop_joints()
    }
}

/// The glue mechanic: requests to join two bodies, and the joints made for
/// them at the end of each tick.
pub struct GlueWorld {
    requests: Vec<Glue>,
    joints: Vec<Glue>,
    released: Vec<u64>,
}

impl View for GlueWorld {
    type V = GlueState;

    closed spec fn view(&self) -> GlueState {
        GlueState { requests: self.requests@, joints: self.joints@, released: self.released@ }
    }
}

/// What the end of a tick did to the joints.
pub struct GlueSync {
    /// The joints made, to be created in the physics world.
    pub made: Vec<Glue>,
    /// The holders whose joint is to be removed from the physics world.
    pub released: Vec<u64>,
}

impl GlueWorld {
    pub closed spec fn wf(&self) -> bool {
        self@.wf()
    }

    /// No requests and no joints.
    pub fn new() -> (r: GlueWorld)
        ensures
            r@.requests == Seq::<Glue>::empty(),
            r@.joints == Seq::<Glue>::empty(),
            r@.released == Seq::<u64>::empty(),
            r.wf(),
    {
        GlueWorld { requests: Vec::new(), joints: Vec::new(), released: Vec::new() }
    }

    /// Requests that `holder` be joined to `target`, in place of any earlier
    /// request of `holder`. The joint comes with the next joint pass.
    pub fn attach(&mut self, holder: u64, target: u64)
        requires
            old(self).wf(),
        ensures
            final(self)@ == old(self)@.attach(holder, target),
            final(self).wf(),
    {
        let g = Glue { holder, target };
        match find_holder(&self.requests, holder) {
            Some(i) => {
                self.requests.set(i, g);
            },
            None => {
                self.requests.push(g);
            },
        }
        proof {
            lemma_attach_wf(old(self)@, holder, target);
        }
    }

    /// Withdraws `holder`'s request, if it has one; its joint goes with the
    /// next release pass.
    pub fn detach(&mut self, holder: u64)
        requires
            old(self).wf(),
        ensures
            final(self)@ == old(self)@.detach(holder),
            final(self).wf(),
    {
        match find_holder(&self.requests, holder) {
            Some(i) => {
                self.requests.remove(i);
                self.released.push(holder);
            },
            None => {},
        }
        proof {
            lemma_detach_wf(old(self)@, holder);
        }
    }

    /// The joint pass: makes a joint for each request whose holder has none
    /// yet and whose target is among `anchors`; returns the joints made.
    pub fn make_joints(&mut self, anchors: &Vec<u64>) -> (made: Vec<Glue>)
        requires
            old(self).wf(),
        ensures
            final(self)@ == old(self)@.make_joints(anchors@),
            made@ == final(self)@.joints.subrange(old(self)@.joints.len() as int, final(self)@.joints.len() as int),
            final(self).wf(),
    {
        let ghost s = self@;
        let mut made: Vec<Glue> = Vec::new();
        let n = self.requests.len();
        let mut i: usize = 0;
        while i < n
            invariant
                s == self@,
                n == s.requests.len(),
                unique_holders(s.joints),
                0 <= i <= n,
                made@ == joints_made(s.requests, s.joints, anchors@, i as int),
            decreases n - i,
        {
            let g = self.requests[i];
            let has_joint = find_holder(&self.joints, g.holder).is_some();
            if !has_joint && contains_u64(anchors, g.target) {
                made.push(g);
            }
            i = i + 1;
        }
        let mut k: usize = 0;
        let ghost j0 = self.joints@;
        while k < made.len()
            invariant
                0 <= k <= made@.len(),
                self.requests@ == s.requests,
                self.released@ == s.released,
                self.joints@ == j0 + made@.take(k as int),
            decreases made@.len() - k,
        {
            self.joints.push(made[k]);
            k = k + 1;
            assert(made@.take(k as int) == made@.take(k - 1).push(made@[k - 1]));
        }
        proof {
            assert(made@.take(made@.len() as int) == made@);
            lemma_make_joints_wf(s, anchors@);
            assert(self@.joints.subrange(s.joints.len() as int, self@.joints.len() as int) == made@);
        }
        made
    }

    /// The release pass: removes the joints of withdrawn requests; returns
    /// the holders withdrawn since the last pass.
    pub fn drop_joints(&mut self) -> (released: Vec<u64>)
        requires
            old(self).wf(),
        ensures
            final(self)@ == old(self)@.drop_joints(),
            released@ == old(self)@.released,
            final(self).wf(),
    {
        let ghost s = self@;
        let mut kept: Vec<Glue> = Vec::new();
        let n = self.joints.len();
        let mut i: usize = 0;
        while i < n
            invariant
                s == self@,
                n == s.joints.len(),
                0 <= i <= n,
                kept@ == joints_kept(s.joints, s.released, i as int),
            decreases n - i,
        {
            let g = self.joints[i];
            if !contains_u64(&self.released, g.holder) {
                kept.push(g);
            }
            i = i + 1;
        }
        self.joints = kept;
        let released = self.released.clone();
        self.released = Vec::new();
        proof {
            lemma_drop_joints_wf(s);
        }
        released
    }

    /// The end of a tick: the joint pass, then the release pass.
    pub fn settle(&mut self, anchors: &Vec<u64>) -> (r: GlueSync)
        requires
            old(self).wf(),
        ensures
            final(self)@ == old(self)@.settle(anchors@),
            r.made@ == old(self)@.make_joints(anchors@).joints.subrange(
                old(self)@.joints.len() as int,
                old(self)@.make_joints(anchors@).joints.len() as int,
            ),
            r.released@ == old(self)@.released,
            final(self).wf(),
    {
        let made = self.make_joints(anchors);
        let released = self.drop_joints();
        GlueSync { made, released }
    }

    /// The target of `holder`'s joint, if it has one.
    pub fn joint_of(&self, holder: u64) -> (r: Option<u64>)
        requires
            self.wf(),
        ensures
            match r {
                Some(t) => holds(self@.joints, holder) && self@.joints[index_of(self@.joints, holder)].target == t,
                None => !holds(self@.joints, holder),
            },
    {
        match find_holder(&self.joints, holder) {
            Some(i) => Some(self.joints[i].target),
            None => None,
        }
    }

    /// The target that `holder` is requested to be joined to, if any.
    pub fn request_of(&self, holder: u64) -> (r: Option<u64>)
        requires
            self.wf(),
        ensures
            match r {
                Some(t) => holds(self@.requests, holder) && self@.requests[index_of(self@.requests, holder)].target == t,
                None => !holds(self@.requests, holder),
            },
    {
        match find_holder(&self.requests, holder) {
            Some(i) => Some(self.requests[i].target),
            None => None,
        }
    }

    /// How many joints join `holder` to `target`.
    pub fn joint_count(&self, holder: u64, target: u64) -> (r: usize)
        ensures
            r == count_of(self@.joints, holder, target),
    {
        let mut c: usize = 0;
        let mut i: usize = 0;
        while i < self.joints.len()
            invariant
                0 <= i <= self@.joints.len(),
                c <= i,
                c == count_of(self@.joints.take(i as int), holder, target),
            decreases self@.joints.len() - i,
        {
            if self.joints[i].holder == holder && self.joints[i].target == target {
                c = c + 1;
            }
            i = i + 1;
            assert(self@.joints.take(i as int).drop_last() == self@.joints.take(i - 1));
        }
        assert(self@.joints.take(i as int) == self@.joints);
        c
    }
}

/// A request keeps the glue well formed.
pub proof fn lemma_attach_wf(s: GlueState, holder: u64, target: u64)
    requires
        s.wf(),
    ensures
        s.attach(holder, target).wf(),
{
    let g = Glue { holder, target };
    let r = s.attach(holder, target).requests;
    if holds(s.requests, holder) {
        let i = index_of(s.requests, holder);
        lemma_update_keeps_holders(s.requests, i, g);
    } else {
        lemma_push_new_holder(s.requests, g);
    }
    assert forall|k: int| 0 <= k < s.joints.len() implies holds(r, #[trigger] s.joints[k].holder)
        || s.released.contains(s.joints[k].holder) by {
        if holds(s.requests, s.joints[k].holder) {
            let j = choose|j: int| 0 <= j < s.requests.len() && s.requests[j].holder == s.joints[k].holder;
            assert(r[j].holder == s.joints[k].holder);
        }
    }
}

/// A withdrawal keeps the glue well formed.
pub proof fn lemma_detach_wf(s: GlueState, holder: u64)
    requires
        s.wf(),
    ensures
        s.detach(holder).wf(),
{
    if holds(s.requests, holder) {
        let i = index_of(s.requests, holder);
        let d = s.detach(holder);
        let r = d.requests;
        assert forall|a: int, b: int| 0 <= a < r.len() && 0 <= b < r.len() && a != b implies r[a].holder
            != r[b].holder by {
            let a0 = if a < i { a } else { a + 1 };
            let b0 = if b < i { b } else { b + 1 };
            assert(r[a] == s.requests[a0] && r[b] == s.requests[b0]);
        }
        assert forall|k: int| 0 <= k < s.joints.len() implies holds(r, #[trigger] s.joints[k].holder)
            || d.released.contains(s.joints[k].holder) by {
            let x = s.joints[k].holder;
            if x == holder {
                assert(d.released[d.released.len() - 1] == x);
            } else if holds(s.requests, x) {
                let j = choose|j: int| 0 <= j < s.requests.len() && s.requests[j].holder == x;
                assert(j != i);
                let j2 = if j < i { j } else { j - 1 };
                assert(r[j2] == s.requests[j]);
            } else {
                let m = choose|m: int| 0 <= m < s.released.len() && s.released[m] == x;
                assert(d.released[m] == x);
            }
        }
    }
}

/// The joint pass keeps the glue well formed.
pub proof fn lemma_make_joints_wf(s: GlueState, anchors: Seq<u64>)
    requires
        s.wf(),
    ensures
        s.make_joints(anchors).wf(),
{
    let n = s.requests.len() as int;
    let m = joints_made(s.requests, s.joints, anchors, n);
    let j = s.make_joints(anchors).joints;
    lemma_made_from_requests(s.requests, s.joints, anchors, n);
    assert forall|a: int, b: int| 0 <= a < j.len() && 0 <= b < j.len() && a != b implies j[a].holder
        != j[b].holder by {
        let l = s.joints.len() as int;
        if a >= l && b >= l {
            assert(j[a] == m[a - l] && j[b] == m[b - l]);
        } else if a >= l {
            assert(j[a] == m[a - l]);
            assert(exists|i: int| 0 <= i < n && s.requests[i] == m[a - l] && !holds(s.joints, s.requests[i].holder));
        } else if b >= l {
            assert(j[b] == m[b - l]);
            assert(exists|i: int| 0 <= i < n && s.requests[i] == m[b - l] && !holds(s.joints, s.requests[i].holder));
        }
    }
    assert forall|a: int| 0 <= a < j.len() implies holds(s.requests, #[trigger] j[a].holder)
        || s.released.contains(j[a].holder) by {
        let l = s.joints.len() as int;
        if a >= l {
            assert(j[a] == m[a - l]);
            let i = choose|i: int|
                0 <= i < n && s.requests[i] == m[a - l] && !holds(s.joints, s.requests[i].holder)
                    && anchors.contains(s.requests[i].target);
            assert(s.requests[i].holder == j[a].holder);
        } else {
            assert(j[a] == s.joints[a]);
        }
    }
}

/// The release pass keeps the glue well formed.
pub proof fn lemma_drop_joints_wf(s: GlueState)
    requires
        s.wf(),
    ensures
        s.drop_joints().wf(),
{
    let n = s.joints.len() as int;
    lemma_kept_from(s.joints, s.released, n);
    let j = s.drop_joints().joints;
    assert forall|a: int| 0 <= a < j.len() implies holds(s.requests, #[trigger] j[a].holder)
        || s.drop_joints().released.contains(j[a].holder) by {
        let i = choose|i: int| 0 <= i < n && s.joints[i] == j[a] && !s.released.contains(s.joints[i].holder);
        assert(holds(s.requests, s.joints[i].holder) || s.released.contains(s.joints[i].holder));
    }
}

proof fn lemma_update_keeps_holders(s: Seq<Glue>, i: int, g: Glue)
    requires
        0 <= i < s.len(),
        s[i].holder == g.holder,
        unique_holders(s),
    ensures
        unique_holders(s.update(i, g)),
{
    let r = s.update(i, g);
    assert forall|a: int, b: int| 0 <= a < r.len() && 0 <= b < r.len() && a != b implies r[a].holder
        != r[b].holder by {
        assert(r[a].holder == s[a].holder && r[b].holder == s[b].holder);
    }
}

proof fn lemma_push_new_holder(s: Seq<Glue>, g: Glue)
    requires
        !holds(s, g.holder),
        unique_holders(s),
    ensures
        unique_holders(s.push(g)),
{
    let r = s.push(g);
    assert forall|a: int, b: int| 0 <= a < r.len() && 0 <= b < r.len() && a != b implies r[a].holder
        != r[b].holder by {
        if a < s.len() && b < s.len() {
            assert(r[a] == s[a] && r[b] == s[b]);
        } else if a < s.len() {
            assert(r[a] == s[a]);
        } else {
            assert(r[b] == s[b]);
        }
    }
}

/// The position of `holder`'s entry in `v`, if any.
fn find_holder(v: &Vec<Glue>, holder: u64) -> (r: Option<usize>)
    requires
        unique_holders(v@),
    ensures
        match r {
            Some(i) => i < v@.len() && v@[i as int].holder == holder && i == index_of(v@, holder),
            None => !holds(v@, holder),
        },
{
    let mut i: usize = 0;
    while i < v.len()
        invariant
            0 <= i <= v@.len(),
            unique_holders(v@),
            forall|j: int| 0 <= j < i ==> v@[j].holder != holder,
        decreases v@.len() - i,
    {
        if v[i].holder == holder {
            proof {
                assert(holds(v@, holder));
                let c = index_of(v@, holder);
                assert(v@[c].holder == holder);
                if c != i as int {
                    assert(v@[c].holder != v@[i as int].holder);
                }
            }
            return Some(i);
        }
        i = i + 1;
    }
    None
}

fn contains_u64(v: &Vec<u64>, x: u64) -> (r: bool)
    ensures
        r == v@.contains(x),
{
    let mut i: usize = 0;
    while i < v.len()
        invariant
            0 <= i <= v@.len(),
            forall|j: int| 0 <= j < i ==> v@[j] != x,
        decreases v@.len() - i,
    {
        if v[i] == x {
            return true;
        }
        i = i + 1;
    }
    false
}

proof fn lemma_made_from_requests(requests: Seq<Glue>, joints: Seq<Glue>, anchors: Seq<u64>, n: int)
    requires
        0 <= n <= requests.len(),
        unique_holders(requests),
    ensures
        forall|k: int|
            #![trigger joints_made(requests, joints, anchors, n)[k]]
            0 <= k < joints_made(requests, joints, anchors, n).len() ==> exists|i: int|
                0 <= i < n && requests[i] == joints_made(requests, joints, anchors, n)[k]
                    && !holds(joints, requests[i].holder) && anchors.contains(requests[i].target),
        unique_holders(joints_made(requests, joints, anchors, n)),
    decreases n,
{
    if n > 0 {
        lemma_made_from_requests(requests, joints, anchors, n - 1);
        let prev = joints_made(requests, joints, anchors, n - 1);
        let cur = joints_made(requests, joints, anchors, n);
        assert forall|k: int| 0 <= k < cur.len() implies exists|i: int|
            0 <= i < n && requests[i] == #[trigger] cur[k] && !holds(joints, requests[i].holder)
                && anchors.contains(requests[i].target) by {
            if k < prev.len() {
                assert(cur[k] == prev[k]);
            } else {
                assert(requests[n - 1] == cur[k]);
            }
        }
        assert forall|a: int, b: int| 0 <= a < cur.len() && 0 <= b < cur.len() && a != b implies cur[a].holder
            != cur[b].holder by {
            assert(exists|i: int| 0 <= i < n && requests[i] == cur[a]);
            assert(exists|i: int| 0 <= i < n && requests[i] == cur[b]);
            if a < prev.len() && b < prev.len() {
                assert(cur[a] == prev[a] && cur[b] == prev[b]);
            } else if a < prev.len() {
                assert(cur[a] == prev[a]);
                let ia = choose|i: int| 0 <= i < n - 1 && requests[i] == prev[a];
                assert(requests[ia].holder != requests[n - 1].holder);
            } else {
                assert(cur[b] == prev[b]);
                let ib = choose|i: int| 0 <= i < n - 1 && requests[i] == prev[b];
                assert(requests[ib].holder != requests[n - 1].holder);
            }
        }
    }
}

proof fn lemma_kept_from(joints: Seq<Glue>, released: Seq<u64>, n: int)
    requires
        0 <= n <= joints.len(),
    ensures
        forall|k: int|
            #![trigger joints_kept(joints, released, n)[k]]
            0 <= k < joints_kept(joints, released, n).len() ==> exists|i: int|
                0 <= i < n && joints[i] == joints_kept(joints, released, n)[k] && !released.contains(
                    joints[i].holder,
                ),
        unique_holders(joints) ==> unique_holders(joints_kept(joints, released, n)),
        joints_kept(joints, released, n).len() <= n,
    decreases n,
{
    if n > 0 {
        lemma_kept_from(joints, released, n - 1);
        let prev = joints_kept(joints, released, n - 1);
        let cur = joints_kept(joints, released, n);
        assert forall|k: int| 0 <= k < cur.len() implies exists|i: int|
            0 <= i < n && joints[i] == #[trigger] cur[k] && !released.contains(joints[i].holder) by {
            if k < prev.len() {
                assert(cur[k] == prev[k]);
            } else {
                assert(joints[n - 1] == cur[k]);
            }
        }
        if unique_holders(joints) {
            assert forall|a: int, b: int|
                0 <= a < cur.len() && 0 <= b < cur.len() && a != b implies cur[a].holder
                != cur[b].holder by {
                if a < prev.len() && b < prev.len() {
                    assert(cur[a] == prev[a] && cur[b] == prev[b]);
                } else if a < prev.len() {
                    assert(cur[a] == prev[a]);
                    let ia = choose|i: int|
                        0 <= i < n - 1 && joints[i] == prev[a] && !released.contains(joints[i].holder);
                    assert(joints[ia].holder != joints[n - 1].holder);
                } else {
                    assert(cur[b] == prev[b]);
                    let ib = choose|i: int|
                        0 <= i < n - 1 && joints[i] == prev[b] && !released.contains(joints[i].holder);
                    assert(joints[ib].holder != joints[n - 1].holder);
                }
            }
        }
    }
}

/// One holder has at most one joint to a given target: with at most one
/// joint per holder, no pair is joined twice.
pub proof fn lemma_one_joint_per_pair(s: GlueState, holder: u64, target: u64)
    requires
        s.wf(),
    ensures
        count_of(s.joints, holder, target) <= 1,
{
    lemma_count_unique(s.joints, holder, target);
}

proof fn lemma_count_unique(s: Seq<Glue>, holder: u64, target: u64)
    requires
        unique_holders(s),
    ensures
        count_of(s, holder, target) <= 1,
        !holds(s, holder) ==> count_of(s, holder, target) == 0,
    decreases s.len(),
{
    if s.len() > 0 {
        let p = s.drop_last();
        assert(unique_holders(p)) by {
            assert forall|i: int, j: int| 0 <= i < p.len() && 0 <= j < p.len() && i != j implies p[i].holder
                != p[j].holder by {
                assert(p[i] == s[i] && p[j] == s[j]);
            }
        }
        lemma_count_unique(p, holder, target);
        if s.last().holder == holder {
            assert(!holds(p, holder)) by {
                if holds(p, holder) {
                    let i = choose|i: int| 0 <= i < p.len() && p[i].holder == holder;
                    assert(s[i].holder == s[s.len() - 1].holder);
                }
            }
        }
        if holds(p, holder) {
            assert(holds(s, holder)) by {
                let i = choose|i: int| 0 <= i < p.len() && p[i].holder == holder;
                assert(s[i] == p[i]);
            }
        }
        if !holds(s, holder) {
            assert(!holds(p, holder)) by {
                if holds(p, holder) {
                    let i = choose|i: int| 0 <= i < p.len() && p[i].holder == holder;
                    assert(s[i] == p[i]);
                }
            }
            assert(s[s.len() - 1].holder != holder);
        }
    }
}

/// A withdrawn request leaves no joint behind past the end of the tick in
/// which it was withdrawn: its holder is joined to nothing.
pub proof fn lemma_detach_drops_joint(s: GlueState, holder: u64, anchors: Seq<u64>, target: u64)
    requires
        s.wf(),
    ensures
        !holds(s.detach(holder).settle(anchors).joints, holder),
        count_of(s.detach(holder).settle(anchors).joints, holder, target) == 0,
{
    let d = s.detach(holder);
    let n = d.requests.len() as int;
    assert(!holds(d.requests, holder)) by {
        if holds(s.requests, holder) {
            let i = index_of(s.requests, holder);
            if holds(d.requests, holder) {
                let j = choose|j: int| 0 <= j < d.requests.len() && d.requests[j].holder == holder;
                let j0 = if j < i { j } else { j + 1 };
                assert(d.requests[j] == s.requests[j0]);
            }
        }
    }
    lemma_made_from_requests(d.requests, d.joints, anchors, n);
    let m = d.make_joints(anchors);
    let made = joints_made(d.requests, d.joints, anchors, n);
    assert forall|k: int| 0 <= k < m.joints.len() && m.joints[k].holder == holder implies m.released.contains(
        holder,
    ) by {
        let l = d.joints.len() as int;
        if k >= l {
            assert(m.joints[k] == made[k - l]);
        } else {
            assert(m.joints[k] == s.joints[k]);
            if holds(s.requests, holder) {
                assert(d.released[d.released.len() - 1] == holder);
            } else {
                assert(holds(s.requests, s.joints[k].holder) || s.released.contains(s.joints[k].holder));
            }
        }
    }
    lemma_kept_from(m.joints, m.released, m.joints.len() as int);
    let f = d.settle(anchors).joints;
    if holds(f, holder) {
        let k = choose|k: int| 0 <= k < f.len() && f[k].holder == holder;
        let i = choose|i: int|
            0 <= i < m.joints.len() && m.joints[i] == f[k] && !m.released.contains(m.joints[i].holder);
    }
    lemma_detach_wf(s, holder);
    lemma_make_joints_wf(d, anchors);
    lemma_drop_joints_wf(m);
    lemma_count_unique(f, holder, target);
}

/// Requesting the same glue twice is the same as requesting it once, and a
/// joint pass never gives a second joint to a holder that has one.
pub proof fn lemma_attach_twice(s: GlueState, holder: u64, target: u64, anchors: Seq<u64>)
    requires
        s.wf(),
    ensures
        s.attach(holder, target).attach(holder, target) == s.attach(holder, target),
        holds(s.joints, holder) ==> !holds(
            joints_made(s.requests, s.joints, anchors, s.requests.len() as int),
            holder,
        ),
{
    let a = s.attach(holder, target);
    let g = Glue { holder, target };
    if holds(s.requests, holder) {
        let i = index_of(s.requests, holder);
        assert(a.requests[i] == g);
    } else {
        assert(a.requests[a.requests.len() - 1] == g);
    }
    let i2 = index_of(a.requests, holder);
    assert(a.requests[i2].holder == holder);
    assert(a.requests.update(i2, g) =~= a.requests) by {
        if holds(s.requests, holder) {
            let i = index_of(s.requests, holder);
            if i != i2 {
                assert(a.requests[i].holder == a.requests[i2].holder);
                assert(s.requests[i2].holder == holder);
            }
        } else {
            let l = s.requests.len() as int;
            if i2 != l {
                assert(s.requests[i2].holder == holder);
            }
        }
    }
    let n = s.requests.len() as int;
    lemma_made_from_requests(s.requests, s.joints, anchors, n);
    let made = joints_made(s.requests, s.joints, anchors, n);
    if holds(s.joints, holder) && holds(made, holder) {
        let k = choose|k: int| 0 <= k < made.len() && made[k].holder == holder;
        assert(exists|i: int| 0 <= i < n && s.requests[i] == made[k] && !holds(s.joints, s.requests[i].holder));
    }
}

/// One step of the glue's life.
pub enum GlueOp {
    Attach(u64, u64),
    Detach(u64),
    /// The end of a tick, with the bodies that can anchor a joint.
    Settle(Seq<u64>),
}

impl GlueState {
    pub open spec fn apply(self, op: GlueOp) -> GlueState {
        match op {
            GlueOp::Attach(h, t) => self.attach(h, t),
            GlueOp::Detach(h) => self.detach(h),
            GlueOp::Settle(anchors) => self.settle(anchors),
        }
    }

    /// The glue after each of `ops` in turn.
    pub open spec fn apply_all(self, ops: Seq<GlueOp>) -> GlueState
        decreases ops.len(),
    {
        if ops.len() == 0 {
            self
        } else {
            self.apply_all(ops.drop_last()).apply(ops.last())
        }
    }
}

/// Whatever requests, withdrawals and tick ends follow one another, no
/// holder is ever joined to the same target twice.
pub proof fn lemma_never_two_joints(s: GlueState, ops: Seq<GlueOp>, holder: u64, target: u64)
    requires
        s.wf(),
    ensures
        s.apply_all(ops).wf(),
        count_of(s.apply_all(ops).joints, holder, target) <= 1,
    decreases ops.len(),
{
    if ops.len() > 0 {
        lemma_never_two_joints(s, ops.drop_last(), holder, target);
        let p = s.apply_all(ops.drop_last());
        match ops.last() {
            GlueOp::Attach(h, t) => lemma_attach_wf(p, h, t),
            GlueOp::Detach(h) => lemma_detach_wf(p, h),
            GlueOp::Settle(anchors) => {
                lemma_make_joints_wf(p, anchors);
                lemma_drop_joints_wf(p.make_joints(anchors));
            },
        }
    }
    lemma_one_joint_per_pair(s.apply_all(ops), holder, target);
}

} // verus!
