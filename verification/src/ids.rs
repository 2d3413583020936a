//! Who a runner is, and who an agent is.
//!
//! Two id spaces on purpose: a workflow runner owns many agents, so a runner's
//! id never doubles as an agent's. Both are random 128-bit values, written in
//! the hyphenated form everywhere they are read by a person or a model.

use crate::text::Dup;
use vstd::prelude::*;

verus! {

/// One runner: a conversation, a worker, a workflow run.
#[derive(Debug, Clone, Copy, PartialEq, Eq, PartialOrd, Ord, Hash, Structural)]
pub struct RunnerId(pub u128);

/// One agent.
#[derive(Debug, Clone, Copy, PartialEq, Eq, PartialOrd, Ord, Hash, Structural)]
pub struct AgentId(pub u128);

/// One session.
#[derive(Debug, Clone, Copy, PartialEq, Eq, PartialOrd, Ord, Hash, Structural)]
pub struct SessionId(pub u128);

/// What a runner is.
#[derive(Debug, Clone, Copy, PartialEq, Eq, Structural)]
pub enum RunnerKind {
    Conversation,
    SubAgent,
    Workflow,
}

impl DeepView for RunnerId {
    type V = RunnerId;

    open spec fn deep_view(&self) -> RunnerId {
        *self
    }
}

impl DeepView for AgentId {
    type V = AgentId;

    open spec fn deep_view(&self) -> AgentId {
        *self
    }
}

impl DeepView for SessionId {
    type V = SessionId;

    open spec fn deep_view(&self) -> SessionId {
        *self
    }
}

impl DeepView for RunnerKind {
    type V = RunnerKind;

    open spec fn deep_view(&self) -> RunnerKind {
        *self
    }
}

impl Dup for RunnerId {
    fn dup(&self) -> (out: Self) {
        *self
    }
}

impl Dup for AgentId {
    fn dup(&self) -> (out: Self) {
        *self
    }
}

impl Dup for SessionId {
    fn dup(&self) -> (out: Self) {
        *self
    }
}

impl Dup for RunnerKind {
    fn dup(&self) -> (out: Self) {
        *self
    }
}

/// The lower-case hexadecimal digit of a number below sixteen.
pub open spec fn hex_digit(d: int) -> char {
    if d == 0 {
        '0'
    } else if d == 1 {
        '1'
    } else if d == 2 {
        '2'
    } else if d == 3 {
        '3'
    } else if d == 4 {
        '4'
    } else if d == 5 {
        '5'
    } else if d == 6 {
        '6'
    } else if d == 7 {
        '7'
    } else if d == 8 {
        '8'
    } else if d == 9 {
        '9'
    } else if d == 10 {
        'a'
    } else if d == 11 {
        'b'
    } else if d == 12 {
        'c'
    } else if d == 13 {
        'd'
    } else if d == 14 {
        'e'
    } else {
        'f'
    }
}

/// The `k`th of a value's thirty-two hexadecimal digits, the highest first.
pub open spec fn nibble(id: u128, k: int) -> int {
    (id as int / vstd::arithmetic::power::pow(16, (31 - k) as nat)) % 16
}

/// How many hyphens stand before a position of the hyphenated form.
pub open spec fn hyphens_before(i: int) -> int {
    if i <= 8 {
        0
    } else if i <= 13 {
        1
    } else if i <= 18 {
        2
    } else if i <= 23 {
        3
    } else {
        4
    }
}

/// The hyphenated form: thirty-two digits in groups of eight, four, four, four
/// and twelve.
pub open spec fn hyphenated(id: u128) -> Seq<char> {
    Seq::new(
        36,
        |i: int|
            if i == 8 || i == 13 || i == 18 || i == 23 {
                '-'
            } else {
                hex_digit(nibble(id, i - hyphens_before(i)))
            },
    )
}

/// Where a digit stands in the hyphenated form.
pub open spec fn digit_position(k: int) -> int {
    if k < 8 {
        k
    } else if k < 12 {
        k + 1
    } else if k < 16 {
        k + 2
    } else if k < 20 {
        k + 3
    } else {
        k + 4
    }
}

/// Equal leading digits leave equal leading values.
proof fn lemma_equal_digits(a: u128, b: u128, k: nat)
    requires
        k <= 32,
        forall|j: int| 0 <= j < 32 ==> #[trigger] nibble(a, j) == nibble(b, j),
    ensures
        a as int / vstd::arithmetic::power::pow(16, (32 - k) as nat) == b as int / vstd::arithmetic::power::pow(16, (32 - k) as nat),
    decreases k,
{
    if k == 0 {
        assert(vstd::arithmetic::power::pow(16, 32) > u128::MAX) by {
            vstd::arithmetic::power::lemma_pow_adds(16, 16, 16);
            assert(vstd::arithmetic::power::pow(16, 16) == 0x1_0000_0000_0000_0000) by {
                reveal_with_fuel(vstd::arithmetic::power::pow, 17);
            }
        }
        lemma_small(a as int, vstd::arithmetic::power::pow(16, 32));
        lemma_small(b as int, vstd::arithmetic::power::pow(16, 32));
    } else {
        let d = vstd::arithmetic::power::pow(16, (32 - k) as nat);
        vstd::arithmetic::power::lemma_pow_positive(16, (32 - k) as nat);
        assert(vstd::arithmetic::power::pow(16, (33 - k) as nat) == 16 * d) by {
            reveal(vstd::arithmetic::power::pow);
        }
        lemma_equal_digits(a, b, (k - 1) as nat);
        vstd::arithmetic::div_mod::lemma_div_denominator(a as int, d, 16);
        vstd::arithmetic::div_mod::lemma_div_denominator(b as int, d, 16);
        assert(d * 16 == 16 * d);
        assert(nibble(a, k - 1) == nibble(b, k - 1));
        vstd::arithmetic::div_mod::lemma_fundamental_div_mod(a as int / d, 16);
        vstd::arithmetic::div_mod::lemma_fundamental_div_mod(b as int / d, 16);
    }
}

/// A value below the divisor divides to nothing.
proof fn lemma_small(x: int, d: int)
    requires
        0 <= x < d,
    ensures
        x / d == 0,
{
    vstd::arithmetic::div_mod::lemma_basic_div(x, d);
}

/// Two ids that are written the same are the same id.
pub proof fn law_hyphenated_is_injective(a: u128, b: u128)
    requires
        hyphenated(a) == hyphenated(b),
    ensures
        a == b,
{
    assert forall|j: int| 0 <= j < 32 implies #[trigger] nibble(a, j) == nibble(b, j) by {
        let i = digit_position(j);
        assert(hyphenated(a)[i] == hyphenated(b)[i]);
        assert(i - hyphens_before(i) == j);
        assert(hyphenated(a)[i] == hex_digit(nibble(a, j)));
        assert(hyphenated(b)[i] == hex_digit(nibble(b, j)));
        let x = nibble(a, j);
        let y = nibble(b, j);
        assert(0 <= x < 16 && 0 <= y < 16);
        assert(hex_digit(x) == hex_digit(y));
    }
    lemma_equal_digits(a, b, 32);
    assert(vstd::arithmetic::power::pow(16, 0) == 1) by {
        reveal(vstd::arithmetic::power::pow);
    }
}

/// A version 4 id: random but for the four bits of the version and the two of
/// the variant.
pub open spec fn is_version_4(id: u128) -> bool {
    &&& (id / 0x1000_0000_0000_0000_0000) % 16 == 4
    &&& (id / 0x4000_0000_0000_0000) % 4 == 2
}

/// `uuid::Uuid::new_v4`: a fresh random value, of which only the version and
/// variant bits are known. Random ids can collide; nothing here says that they
/// do not. The call panics when the operating system gives no randomness.
#[verifier::external_body]
fn random_uuid() -> (r: u128)
    ensures
        is_version_4(r),
{
    uuid::Uuid::new_v4().as_u128()
}

/// `uuid::Uuid`'s `Display`: the hyphenated form with lower-case digits, the
/// most significant first.
#[verifier::external_body]
fn uuid_text(id: u128) -> (r: String)
    ensures
        r@ == hyphenated(id),
{
    uuid::Uuid::from_u128(id).to_string()
}

impl RunnerId {
    /// A fresh id.
    pub fn new_v4() -> (r: Self)
        ensures
            is_version_4(r.0),
    {
        RunnerId(random_uuid())
    }

    /// The id as it is written.
    pub fn text(&self) -> (r: String)
        ensures
            r@ == hyphenated(self.0),
    {
        uuid_text(self.0)
    }
}

impl AgentId {
    /// A fresh id.
    pub fn new_v4() -> (r: Self)
        ensures
            is_version_4(r.0),
    {
        AgentId(random_uuid())
    }

    /// The id as it is written.
    pub fn text(&self) -> (r: String)
        ensures
            r@ == hyphenated(self.0),
    {
        uuid_text(self.0)
    }
}

/// Each id is below every later one, so none occurs twice.
pub open spec fn ids_ascend(s: Seq<RunnerId>) -> bool {
    forall|i: int, j: int| 0 <= i < j < s.len() ==> (#[trigger] s[i]).0 < (#[trigger] s[j]).0
}

/// A set of runners, held in the order of their ids.
#[derive(Debug, PartialEq, Eq)]
pub struct RunnerSet {
    ids: Vec<RunnerId>,
}

impl DeepView for RunnerSet {
    type V = Seq<RunnerId>;

    closed spec fn deep_view(&self) -> Seq<RunnerId> {
        self.ids@
    }
}

/// Two ascending sequences with the same members are the same.
pub proof fn law_ascending_ids_are_unique(a: Seq<RunnerId>, b: Seq<RunnerId>)
    requires
        ids_ascend(a),
        ids_ascend(b),
        a.to_set() == b.to_set(),
    ensures
        a == b,
    decreases a.len(),
{
    assert forall|x: RunnerId| #[trigger] a.contains(x) <==> b.contains(x) by {
        assert(a.to_set().contains(x) == a.contains(x));
        assert(b.to_set().contains(x) == b.contains(x));
    }
    if a.len() == 0 {
        if b.len() > 0 {
            assert(b.contains(b[0]));
            assert(a.contains(b[0]));
        }
        assert(a =~= b);
    } else {
        assert(a.contains(a[0]));
        let k = choose|k: int| 0 <= k < b.len() && b[k] == a[0];
        assert(b.contains(b[0]));
        assert(a.contains(b[0]));
        let m = choose|m: int| 0 <= m < a.len() && a[m] == b[0];
        assert(a[0] == b[0]);
        let ta = a.drop_first();
        let tb = b.drop_first();
        assert forall|x: RunnerId| #[trigger] ta.to_set().contains(x) <==> tb.to_set().contains(
            x,
        ) by {
            if ta.contains(x) {
                let i = choose|i: int| 0 <= i < ta.len() && ta[i] == x;
                assert(a[i + 1] == x);
                assert(a.contains(x));
                let j = choose|j: int| 0 <= j < b.len() && b[j] == x;
                assert(tb[j - 1] == x);
            }
            if tb.contains(x) {
                let i = choose|i: int| 0 <= i < tb.len() && tb[i] == x;
                assert(b[i + 1] == x);
                assert(b.contains(x));
                assert(a.contains(x));
                let j = choose|j: int| 0 <= j < a.len() && a[j] == x;
                assert(ta[j - 1] == x);
            }
        }
        assert(ta.to_set() =~= tb.to_set());
        law_ascending_ids_are_unique(ta, tb);
        assert(a =~= seq![a[0]] + ta);
        assert(b =~= seq![b[0]] + tb);
    }
}

/// The members of a set of runners, in the order of their ids.
pub open spec fn in_order(set: Set<RunnerId>) -> Seq<RunnerId> {
    choose|s: Seq<RunnerId>| #[trigger] ids_ascend(s) && s.to_set() == set
}

/// Runners listed with ascending ids are listed the one way their set is.
pub proof fn law_the_order_is_determined(s: Seq<RunnerId>)
    requires
        ids_ascend(s),
    ensures
        in_order(s.to_set()) == s,
{
    law_ascending_ids_are_unique(in_order(s.to_set()), s);
}

/// Every finite set of runners has its order.
pub proof fn law_a_finite_set_has_its_order(set: Set<RunnerId>)
    requires
        set.finite(),
    ensures
        ids_ascend(in_order(set)),
        in_order(set).to_set() == set,
        in_order(set).len() == set.len(),
    decreases set.len(),
{
    if set =~= Set::empty() {
        let none = Seq::<RunnerId>::empty();
        assert(ids_ascend(none));
        assert(none.to_set() =~= set);
        law_the_order_is_determined(none);
    } else {
        let top = lemma_highest(set);
        let rest = set.remove(top);
        law_a_finite_set_has_its_order(rest);
        let s = in_order(rest);
        let out = s.push(top);
        assert forall|i: int, j: int| 0 <= i < j < out.len() implies (#[trigger] out[i]).0
            < (#[trigger] out[j]).0 by {
            assert(out[i] == s[i]);
            assert(s.to_set().contains(s[i]));
            if j < s.len() {
                assert(out[j] == s[j]);
            }
        }
        assert forall|x: RunnerId| #[trigger] out.to_set().contains(x) <==> set.contains(x) by {
            if out.contains(x) {
                let i = choose|i: int| 0 <= i < out.len() && out[i] == x;
                if i < s.len() {
                    assert(s[i] == x);
                    assert(s.to_set().contains(x));
                }
            }
            if set.contains(x) {
                if x == top {
                    assert(out[s.len() as int] == x);
                } else {
                    assert(s.to_set().contains(x));
                    let i = choose|i: int| 0 <= i < s.len() && s[i] == x;
                    assert(out[i] == x);
                }
            }
        }
        assert(out.to_set() =~= set);
        law_the_order_is_determined(out);
    }
}

/// A finite set of runners with a member has a highest one.
proof fn lemma_highest(set: Set<RunnerId>) -> (top: RunnerId)
    requires
        set.finite(),
        set != Set::<RunnerId>::empty(),
    ensures
        set.contains(top),
        forall|x: RunnerId| set.contains(x) && x != top ==> x.0 < top.0,
    decreases set.len(),
{
    let one = set.choose();
    assert(set.contains(one)) by {
        if set.len() == 0 {
            assert(set =~= Set::empty());
        }
    }
    let rest = set.remove(one);
    if rest =~= Set::empty() {
        assert forall|x: RunnerId| set.contains(x) && x != one implies x.0 < one.0 by {
            assert(rest.contains(x));
        }
        one
    } else {
        let top = lemma_highest(rest);
        assert forall|x: RunnerId| set.contains(x) && x != one implies rest.contains(x) by {}
        if top.0 < one.0 {
            one
        } else {
            assert(one.0 != top.0);
            top
        }
    }
}

impl RunnerSet {
    #[verifier::type_invariant]
    spec fn well_formed(self) -> bool {
        ids_ascend(self.ids@)
    }

    /// The members.
    pub open spec fn set(&self) -> Set<RunnerId> {
        self.deep_view().to_set()
    }

    /// No members.
    pub fn new() -> (r: Self)
        ensures
            r.deep_view() == Seq::<RunnerId>::empty(),
            r.set() == Set::<RunnerId>::empty(),
    {
        let r = RunnerSet { ids: Vec::new() };
        proof {
            assert(r.deep_view() =~= seq![]);
            assert(r.set() =~= Set::empty());
        }
        r
    }

    /// How many members there are. Their ids ascend.
    pub fn len(&self) -> (r: usize)
        ensures
            r == self.deep_view().len(),
            ids_ascend(self.deep_view()),
    {
        proof {
            use_type_invariant(self);
        }
        self.ids.len()
    }

    /// Whether there is no member.
    pub fn is_empty(&self) -> (r: bool)
        ensures
            r == (self.deep_view().len() == 0),
            r == (self.set() == Set::<RunnerId>::empty()),
    {
        let r = self.ids.len() == 0;
        proof {
            if r {
                assert(self.set() =~= Set::empty());
            } else {
                assert(self.set().contains(self.ids@[0]));
            }
        }
        r
    }

    /// The member at a position.
    pub fn at(&self, i: usize) -> (r: RunnerId)
        requires
            i < self.deep_view().len(),
        ensures
            r == self.deep_view()[i as int],
    {
        self.ids[i]
    }

    /// Whether this runner is a member.
    pub fn contains(&self, id: RunnerId) -> (r: bool)
        ensures
            r == self.set().contains(id),
    {
        for i in 0..self.ids.len()
            invariant
                forall|j: int| 0 <= j < i ==> self.ids@[j] != id,
        {
            if self.ids[i].0 == id.0 {
                proof {
                    assert(self.ids@[i as int] == id);
                    assert(self.deep_view().contains(id));
                }
                return true;
            }
        }
        false
    }

    /// Add a member.
    pub fn insert(&mut self, id: RunnerId)
        ensures
            final(self).set() == old(self).set().insert(id),
    {
        proof {
            use_type_invariant(&*self);
        }
        let mut ids: Vec<RunnerId> = Vec::new();
        std::mem::swap(&mut ids, &mut self.ids);
        let ghost had = ids@;
        let mut p: usize = 0;
        while p < ids.len() && ids[p].0 < id.0
            invariant
                p <= ids.len(),
                ids@ == had,
                ids_ascend(had),
                forall|i: int| 0 <= i < p ==> (#[trigger] had[i]).0 < id.0,
            decreases ids.len() - p,
        {
            p = p + 1;
        }
        if p < ids.len() && ids[p].0 == id.0 {
            proof {
                assert(had[p as int] == id);
                assert(had.to_set() =~= had.to_set().insert(id));
            }
        } else {
            ids.insert(p, id);
            proof {
                let out = ids@;
                assert(out == had.insert(p as int, id));
                assert forall|x: RunnerId| #[trigger] out.to_set().contains(x) <==> had.to_set().insert(
                    id,
                ).contains(x) by {
                    if out.contains(x) {
                        let i = choose|i: int| 0 <= i < out.len() && out[i] == x;
                        if i < p {
                            assert(had[i] == x);
                        } else if i > p {
                            assert(had[i - 1] == x);
                        }
                    }
                    if had.contains(x) {
                        let i = choose|i: int| 0 <= i < had.len() && had[i] == x;
                        if i < p {
                            assert(out[i] == x);
                        } else {
                            assert(out[i + 1] == x);
                        }
                    }
                    assert(out[p as int] == id);
                }
                assert(out.to_set() =~= had.to_set().insert(id));
                assert forall|i: int, j: int| 0 <= i < j < out.len() implies (#[trigger] out[i]).0
                    < (#[trigger] out[j]).0 by {
                    let a = if i < p { i } else { i - 1 };
                    let b = if j < p { j } else { j - 1 };
                    if i != p {
                        assert(out[i] == had[a]);
                    }
                    if j != p {
                        assert(out[j] == had[b]);
                    }
                }
            }
        }
        self.ids = ids;
    }

    /// Take a member out.
    pub fn remove(&mut self, id: RunnerId)
        ensures
            final(self).set() == old(self).set().remove(id),
    {
        proof {
            use_type_invariant(&*self);
        }
        let mut ids: Vec<RunnerId> = Vec::new();
        std::mem::swap(&mut ids, &mut self.ids);
        let ghost had = ids@;
        let mut p: usize = 0;
        while p < ids.len() && ids[p].0 != id.0
            invariant
                p <= ids.len(),
                ids@ == had,
                ids_ascend(had),
                forall|i: int| 0 <= i < p ==> (#[trigger] had[i]).0 != id.0,
            decreases ids.len() - p,
        {
            p = p + 1;
        }
        if p < ids.len() {
            let _ = ids.remove(p);
            proof {
                let out = ids@;
                assert(out == had.remove(p as int));
                assert forall|x: RunnerId| #[trigger] out.to_set().contains(x) <==> had.to_set().remove(
                    id,
                ).contains(x) by {
                    if out.contains(x) {
                        let i = choose|i: int| 0 <= i < out.len() && out[i] == x;
                        let a = if i < p { i } else { i + 1 };
                        assert(had[a] == x);
                        assert(had[p as int].0 == id.0);
                    }
                    if had.contains(x) && x != id {
                        let i = choose|i: int| 0 <= i < had.len() && had[i] == x;
                        assert(had[p as int] == id);
                        if i < p {
                            assert(out[i] == x);
                        } else {
                            assert(out[i - 1] == x);
                        }
                    }
                }
                assert(out.to_set() =~= had.to_set().remove(id));
                assert forall|i: int, j: int| 0 <= i < j < out.len() implies (#[trigger] out[i]).0
                    < (#[trigger] out[j]).0 by {
                    let a = if i < p { i } else { i + 1 };
                    let b = if j < p { j } else { j + 1 };
                    assert(out[i] == had[a] && out[j] == had[b]);
                }
            }
        } else {
            proof {
                assert forall|x: RunnerId| had.contains(x) implies x != id by {
                    let i = choose|i: int| 0 <= i < had.len() && had[i] == x;
                    assert(had[i].0 != id.0);
                }
                assert(had.to_set() =~= had.to_set().remove(id));
            }
        }
        self.ids = ids;
    }
}

impl Dup for RunnerSet {
    fn dup(&self) -> (out: Self) {
        proof {
            use_type_invariant(self);
        }
        let ids = self.ids.dup();
        proof {
            assert(ids@ =~= self.ids@) by {
                assert(ids.deep_view() == self.ids.deep_view());
                assert(ids.deep_view().len() == self.ids.deep_view().len());
                assert forall|i: int| 0 <= i < ids@.len() implies ids@[i] == self.ids@[i] by {
                    assert(ids.deep_view()[i] == ids@[i].deep_view());
                    assert(self.ids.deep_view()[i] == self.ids@[i].deep_view());
                }
            }
        }
        RunnerSet { ids }
    }
}

/// An id is written in thirty-six characters: hyphens at four places, and a
/// hexadecimal digit of it, the highest first, at every other.
pub proof fn law_an_id_is_written_digit_by_digit(id: u128, i: int)
    requires
        0 <= i < 36,
    ensures
        hyphenated(id).len() == 36,
        i == 8 || i == 13 || i == 18 || i == 23 ==> hyphenated(id)[i] == '-',
        0 <= i < 8 ==> hyphenated(id)[i] == hex_digit(nibble(id, i)),
        8 < i < 13 ==> hyphenated(id)[i] == hex_digit(nibble(id, i - 1)),
        13 < i < 18 ==> hyphenated(id)[i] == hex_digit(nibble(id, i - 2)),
        18 < i < 23 ==> hyphenated(id)[i] == hex_digit(nibble(id, i - 3)),
        23 < i < 36 ==> hyphenated(id)[i] == hex_digit(nibble(id, i - 4)),
        forall|k: int|
            0 <= k < 10 ==> (#[trigger] hex_digit(k)) as int == 48 + k,
        forall|k: int| 10 <= k < 16 ==> (#[trigger] hex_digit(k)) as int == 97 + k - 10,
{
}

/// An id's digits are those of its number in hexadecimal: the last is what is
/// left of it by sixteen, and those before are the digits of its sixteenth.
pub proof fn law_an_ids_digits_are_those_of_its_number(id: u128, k: int)
    requires
        1 <= k <= 31,
    ensures
        nibble(id, 31) == id % 16,
        nibble(id, k - 1) == nibble(id / 16, k),
{
    vstd::arithmetic::power::lemma_pow0(16);
    let p = vstd::arithmetic::power::pow(16, (31 - k) as nat);
    vstd::arithmetic::power::lemma_pow_positive(16, (31 - k) as nat);
    assert(vstd::arithmetic::power::pow(16, (32 - k) as nat) == 16 * p) by {
        reveal(vstd::arithmetic::power::pow);
    }
    vstd::arithmetic::div_mod::lemma_div_denominator(id as int, 16, p);
}

} // verus!
