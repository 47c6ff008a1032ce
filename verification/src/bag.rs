//! The bag of upcoming pieces: the seven kinds in a shuffled order, each of
//! them once.

use vstd::prelude::*;
use rand::Rng;
use crate::shape::PieceKind;

verus! {

/// Number of pieces in a bag.
pub const BAG_SIZE: usize = 7;

/// The seven kinds in their fixed order, from which every bag is drawn.
pub open spec fn all_kinds() -> Seq<PieceKind> {
    seq![
        PieceKind::O,
        PieceKind::I,
        PieceKind::T,
        PieceKind::L,
        PieceKind::J,
        PieceKind::S,
        PieceKind::Z,
    ]
}

/// A sequence of kinds is a full bag: seven entries, every kind among them,
/// none of them twice.
pub open spec fn is_full_bag(s: Seq<PieceKind>) -> bool {
    &&& s.len() == BAG_SIZE as int
    &&& forall|k: PieceKind| s.contains(k)
    &&& forall|i: int, j: int| 0 <= i < j < s.len() ==> s[i] != s[j]
}

/// Each draw is an index into what is left when it is made: the `i`-th draw
/// picks among `n - i` kinds.
pub open spec fn valid_draws(draws: Seq<int>, n: int) -> bool {
    forall|i: int| 0 <= i < draws.len() ==> 0 <= #[trigger] draws[i] < n - i
}

/// The order in which kinds leave `remaining` when each draw removes the
/// kind at its index and what is left after the last draw follows as it
/// stands.
pub open spec fn drawn(remaining: Seq<PieceKind>, draws: Seq<int>) -> Seq<PieceKind>
    decreases draws.len(),
{
    if draws.len() == 0 {
        remaining
    } else {
        seq![remaining[draws[0]]] + drawn(remaining.remove(draws[0]), draws.drop_first())
    }
}

/// The draws of an executable table, as mathematical integers.
pub open spec fn draws_view(draws: [usize; 6]) -> Seq<int> {
    Seq::new(6, |i: int| draws[i] as int)
}

/// `left` and `right` share no kind, neither holds a kind twice, and every
/// kind is in one of them.
pub open spec fn splits_kinds(left: Seq<PieceKind>, right: Seq<PieceKind>) -> bool {
    &&& forall|k: PieceKind| left.contains(k) || right.contains(k)
    &&& forall|i: int, j: int| 0 <= i < j < left.len() ==> left[i] != left[j]
    &&& forall|i: int, j: int| 0 <= i < j < right.len() ==> right[i] != right[j]
    &&& forall|i: int, j: int| 0 <= i < left.len() && 0 <= j < right.len() ==> left[i] != right[j]
}

/// Moving one kind from the right part to the end of the left part keeps
/// the two parts a split of the kinds.
proof fn lemma_split_moves(left: Seq<PieceKind>, right: Seq<PieceKind>, at: int)
    requires
        splits_kinds(left, right),
        0 <= at < right.len(),
    ensures
        splits_kinds(left.push(right[at]), right.remove(at)),
{
    let l2 = left.push(right[at]);
    let r2 = right.remove(at);
    assert forall|k: PieceKind| l2.contains(k) || r2.contains(k) by {
        if left.contains(k) {
            let i = choose|i: int| 0 <= i < left.len() && left[i] == k;
            assert(l2[i] == k);
        } else {
            let j = choose|j: int| 0 <= j < right.len() && right[j] == k;
            if j == at {
                assert(l2[left.len() as int] == k);
            } else if j < at {
                assert(r2[j] == k);
            } else {
                assert(r2[j - 1] == k);
            }
        }
    }
}

/// Whatever the draws, drawing from a split of the kinds until the right
/// part is used up gives a sequence that holds every kind once.
proof fn lemma_drawn_is_full(left: Seq<PieceKind>, right: Seq<PieceKind>, draws: Seq<int>)
    requires
        splits_kinds(left, right),
        valid_draws(draws, right.len() as int),
    ensures
        splits_kinds(left + drawn(right, draws), Seq::empty()),
        (left + drawn(right, draws)).len() == left.len() + right.len(),
    decreases draws.len(),
{
    if draws.len() == 0 {
        lemma_split_appends(left, right);
    } else {
        let at = draws[0];
        assert(0 <= at < right.len());
        lemma_split_moves(left, right, at);
        let rest = draws.drop_first();
        assert forall|i: int| 0 <= i < rest.len() implies 0 <= #[trigger] rest[i] < right.remove(
            at,
        ).len() - i by {
            assert(rest[i] == draws[i + 1]);
        }
        lemma_drawn_is_full(left.push(right[at]), right.remove(at), rest);
        assert(left.push(right[at]) + drawn(right.remove(at), rest) =~= left + drawn(
            right,
            draws,
        ));
    }
}

/// Appending the right part of a split to the left part gives a sequence
/// that holds every kind once.
proof fn lemma_split_appends(left: Seq<PieceKind>, right: Seq<PieceKind>)
    requires
        splits_kinds(left, right),
    ensures
        splits_kinds(left + right, Seq::empty()),
{
    let whole = left + right;
    assert forall|k: PieceKind| whole.contains(k) by {
        if left.contains(k) {
            let i = choose|i: int| 0 <= i < left.len() && left[i] == k;
            assert(whole[i] == k);
        } else {
            let j = choose|j: int| 0 <= j < right.len() && right[j] == k;
            assert(whole[left.len() + j] == k);
        }
    }
}

/// The fixed order of the kinds is itself a full bag.
pub proof fn lemma_all_kinds_full()
    ensures
        is_full_bag(all_kinds()),
        splits_kinds(Seq::empty(), all_kinds()),
{
    let a = all_kinds();
    assert forall|k: PieceKind| a.contains(k) by {
        match k {
            PieceKind::O => assert(a[0] == k),
            PieceKind::I => assert(a[1] == k),
            PieceKind::T => assert(a[2] == k),
            PieceKind::L => assert(a[3] == k),
            PieceKind::J => assert(a[4] == k),
            PieceKind::S => assert(a[5] == k),
            PieceKind::Z => assert(a[6] == k),
        }
    }
}

/// Whatever six draws are made, each within what is left when it is made,
/// the order that comes out has length seven and holds each of the seven
/// kinds exactly once.
pub proof fn lemma_every_draw_gives_full_bag(draws: Seq<int>)
    requires
        draws.len() == 6,
        valid_draws(draws, BAG_SIZE as int),
    ensures
        is_full_bag(drawn(all_kinds(), draws)),
{
    lemma_all_kinds_full();
    lemma_drawn_is_full(Seq::empty(), all_kinds(), draws);
    assert(Seq::<PieceKind>::empty() + drawn(all_kinds(), draws) =~= drawn(all_kinds(), draws));
}

/// The generator of the calling thread, seeded by the system; opaque here.
#[verifier::external_type_specification]
#[verifier::external_body]
pub struct ExThreadRng(rand::rngs::ThreadRng);

/// `rand::thread_rng`: hands out the calling thread's generator. Nothing is
/// claimed of it.
pub assume_specification[ rand::thread_rng ]() -> (rng: rand::rngs::ThreadRng);

/// `rand::Rng::gen_range` on the half-open range from 0 to `bound`: the
/// index that comes back is below `bound`. Which one it is depends on
/// chance, so nothing more is claimed. An empty range makes the call panic,
/// so `bound` must be positive.
#[verifier::external_body]
fn random_below(rng: &mut rand::rngs::ThreadRng, bound: usize) -> (index: usize)
    requires
        bound > 0,
    ensures
        index < bound,
{
    rng.gen_range(0..bound)
}

/// A bag: the seven kinds in the order in which they will be played.
#[derive(Clone, Copy, Debug, PartialEq, Eq)]
pub struct Bag {
    kinds: [PieceKind; 7],
}

impl View for Bag {
    type V = Seq<PieceKind>;

    closed spec fn view(&self) -> Seq<PieceKind> {
        self.kinds@
    }
}

impl Bag {
    /// The bag holds every kind exactly once. This holds of every bag.
    #[verifier::type_invariant]
    pub open spec fn wf(&self) -> bool {
        is_full_bag(self@)
    }

    /// The bag that the given draws produce: starting from the seven kinds
    /// in their fixed order, each draw takes out the kind at its index among
    /// those still left, and the one kind left after six draws comes last.
    fn arrange(draws: &[usize; 6]) -> (bag: Bag)
        requires
            valid_draws(draws_view(*draws), BAG_SIZE as int),
        ensures
            bag@ == drawn(all_kinds(), draws_view(*draws)),
            bag.wf(),
    {
        let mut left: Vec<PieceKind> = vec![
            PieceKind::O,
            PieceKind::I,
            PieceKind::T,
            PieceKind::L,
            PieceKind::J,
            PieceKind::S,
            PieceKind::Z,
        ];
        let mut kinds: [PieceKind; 7] = [PieceKind::O; 7];
        let ghost all = draws_view(*draws);
        assert(left@ =~= all_kinds());
        let mut i: usize = 0;
        assert(all.skip(0) =~= all);
        while left.len() != 1
            invariant
                i <= 6,
                all == draws_view(*draws),
                valid_draws(all, BAG_SIZE as int),
                left@.len() == 7 - i,
                kinds@.take(i as int) + drawn(left@, all.skip(i as int)) == drawn(all_kinds(), all),
            decreases left@.len(),
        {
            let at: usize = draws[i];
            proof {
                assert(all[i as int] == at as int);
                assert(all.skip(i as int)[0] == all[i as int]);
                assert(all.skip(i as int).drop_first() =~= all.skip(i as int + 1));
            }
            let ghost before = kinds@;
            let ghost left_before = left@;
            let kind = left.remove(at);
            kinds[i] = kind;
            proof {
                assert(kinds@.take(i as int + 1) =~= before.take(i as int).push(kind));
                assert(before.take(i as int).push(kind) + drawn(left@, all.skip(i as int + 1))
                    =~= before.take(i as int) + drawn(left_before, all.skip(i as int)));
            }
            i += 1;
        }
        proof {
            assert(all.skip(6).len() == 0);
            assert(drawn(left@, all.skip(6)) == left@);
        }
        let ghost left_last = left@;
        let last = left.remove(0);
        let ghost before = kinds@;
        kinds[i] = last;
        proof {
            assert(kinds@ =~= before.take(6) + seq![last]);
            assert(left_last =~= seq![last]);
            assert(all.len() == 6);
            lemma_every_draw_gives_full_bag(all);
            assert(kinds@ == drawn(all_kinds(), all));
        }
        Bag { kinds }
    }

    /// The bag that six draws produce, where each draw is an index among the
    /// kinds still left when it is made: the first below 7, the second below
    /// 6, and so on to the sixth, below 2. Any other draws give no bag.
    pub fn from_draws(draws: [usize; 6]) -> (bag: Option<Bag>)
        ensures
            bag is Some <==> valid_draws(draws_view(draws), BAG_SIZE as int),
            bag matches Some(b) ==> b@ == drawn(all_kinds(), draws_view(draws)) && b.wf(),
    {
        let mut i: usize = 0;
        while i < 6
            invariant
                i <= 6,
                forall|j: int| 0 <= j < i ==> 0 <= #[trigger] draws_view(draws)[j] < 7 - j,
            decreases 6 - i,
        {
            if draws[i] >= 7 - i {
                assert(!(draws_view(draws)[i as int] < 7 - i));
                return None;
            }
            i += 1;
        }
        Some(Self::arrange(&draws))
    }

    /// The bag with the given order, where that order holds every kind
    /// exactly once; no bag otherwise.
    pub fn from_order(kinds: [PieceKind; 7]) -> (bag: Option<Bag>)
        ensures
            bag is Some <==> is_full_bag(kinds@),
            bag matches Some(b) ==> b@ == kinds@ && b.wf(),
    {
        let mut i: usize = 0;
        while i < 7
            invariant
                i <= 7,
                forall|a: int, b: int| 0 <= a < b < 7 && a < i ==> kinds@[a] != kinds@[b],
            decreases 7 - i,
        {
            let mut j: usize = i + 1;
            while j < 7
                invariant
                    i < j <= 7,
                    forall|a: int, b: int| 0 <= a < b < 7 && a < i ==> kinds@[a] != kinds@[b],
                    forall|b: int| i < b < j ==> kinds@[i as int] != kinds@[b],
                decreases 7 - j,
            {
                if kinds[i] == kinds[j] {
                    return None;
                }
                j += 1;
            }
            i += 1;
        }
        proof {
            lemma_distinct_seven_hold_all(kinds@);
        }
        Some(Bag { kinds })
    }

    /// A freshly shuffled bag. Six indices are drawn at random, each among
    /// the kinds still left, and the bag is the order in which the kinds
    /// leave; the last kind needs no draw.
    pub fn generate() -> (bag: Bag)
        ensures
            bag.wf(),
            exists|draws: Seq<int>|
                draws.len() == 6 && valid_draws(draws, BAG_SIZE as int) && bag@ == drawn(
                    all_kinds(),
                    draws,
                ),
    {
        let mut rng = rand::thread_rng();
        let mut draws: [usize; 6] = [0; 6];
        let mut i: usize = 0;
        while i < 6
            invariant
                i <= 6,
                forall|j: int| 0 <= j < i ==> 0 <= #[trigger] draws@[j] < 7 - j,
            decreases 6 - i,
        {
            let at: usize = random_below(&mut rng, 7 - i);
            draws[i] = at;
            i += 1;
        }
        assert forall|j: int| 0 <= j < 6 implies 0 <= #[trigger] draws_view(draws)[j] < 7 - j by {
            assert(draws_view(draws)[j] == draws@[j]);
        }
        let bag = Self::arrange(&draws);
        assert(draws_view(draws).len() == 6);
        bag
    }

    /// The kind at position `i` of the bag.
    pub fn kind(&self, i: usize) -> (kind: PieceKind)
        requires
            i < BAG_SIZE,
        ensures
            kind == self@[i as int],
    {
        self.kinds[i]
    }
}

/// The place of a kind in the fixed order of the kinds.
pub open spec fn kind_index(k: PieceKind) -> int {
    match k {
        PieceKind::O => 0,
        PieceKind::I => 1,
        PieceKind::T => 2,
        PieceKind::L => 3,
        PieceKind::J => 4,
        PieceKind::S => 5,
        PieceKind::Z => 6,
    }
}

/// Seven kinds of which no two are the same are all the kinds there are.
pub proof fn lemma_distinct_seven_hold_all(s: Seq<PieceKind>)
    requires
        s.len() == 7,
        forall|i: int, j: int| 0 <= i < j < 7 ==> s[i] != s[j],
    ensures
        is_full_bag(s),
{
    assert forall|k: PieceKind| s.contains(k) by {
        if !s.contains(k) {
            assert forall|i: int| 0 <= i < 7 implies kind_index(s[i]) != kind_index(k) by {
                if kind_index(s[i]) == kind_index(k) {
                    assert(s[i] == k);
                }
            }
            lemma_seven_into_six(s, kind_index(k));
        }
    }
}

/// Seven kinds that all avoid one place of the fixed order cannot be
/// pairwise different.
proof fn lemma_seven_into_six(s: Seq<PieceKind>, avoided: int)
    requires
        s.len() == 7,
        0 <= avoided < 7,
        forall|i: int| 0 <= i < 7 ==> kind_index(#[trigger] s[i]) != avoided,
    ensures
        exists|i: int, j: int| 0 <= i < j < 7 && s[i] == s[j],
{
    let idx = Seq::new(7, |i: int| kind_index(s[i]));
    assert forall|i: int| 0 <= i < 7 implies 0 <= #[trigger] idx[i] < 7 && idx[i] != avoided by {
        assert(kind_index(s[i]) != avoided);
    }
    if forall|i: int, j: int| 0 <= i < j < 7 ==> s[i] != s[j] {
        assert forall|i: int, j: int| 0 <= i < j < 7 implies idx[i] != idx[j] by {
            assert(s[i] != s[j]);
        }
        assert(idx[0] != idx[1] && idx[0] != idx[2] && idx[0] != idx[3] && idx[0] != idx[4]
            && idx[0] != idx[5] && idx[0] != idx[6]);
        assert(idx[1] != idx[2] && idx[1] != idx[3] && idx[1] != idx[4] && idx[1] != idx[5]
            && idx[1] != idx[6]);
        assert(idx[2] != idx[3] && idx[2] != idx[4] && idx[2] != idx[5] && idx[2] != idx[6]);
        assert(idx[3] != idx[4] && idx[3] != idx[5] && idx[3] != idx[6]);
        assert(idx[4] != idx[5] && idx[4] != idx[6]);
        assert(idx[5] != idx[6]);
        assert(false);
    }
}

} // verus!
