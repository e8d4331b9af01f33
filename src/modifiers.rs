//! The sixteen held modifier buttons and the multiplier they give.
//!
//! Each button carries a ratio; the multiplier is the product of the ratios
//! of the held buttons, kept as an exact fraction (numerator, denominator)
//! without reduction.
use vstd::prelude::*;

verus! {

/// A positive fraction `num / den`.
#[derive(Clone, Copy, Debug, PartialEq, Eq, Structural)]
pub struct Ratio {
    pub num: u64,
    pub den: u64,
}

/// The two right-edge ratio tables known for the controller's firmware.
#[derive(Clone, Copy, Debug, PartialEq, Eq, Structural)]
pub enum RatioSet {
    /// 9/8, 8/7, 7/6, 6/5, 5/4, 4/3, 3/2, 2/1 from the top button down.
    Ascending,
    /// 2/1, 3/2, 4/3, 5/4, 6/5, 7/6, 8/7, 9/8 from the top button down.
    Descending,
}

/// The right-edge ratios of a ratio set, top button first.
pub open spec fn right_ratios(set: RatioSet) -> Seq<Ratio> {
    match set {
        RatioSet::Ascending => seq![
            Ratio { num: 9, den: 8 },
            Ratio { num: 8, den: 7 },
            Ratio { num: 7, den: 6 },
            Ratio { num: 6, den: 5 },
            Ratio { num: 5, den: 4 },
            Ratio { num: 4, den: 3 },
            Ratio { num: 3, den: 2 },
            Ratio { num: 2, den: 1 },
        ],
        RatioSet::Descending => seq![
            Ratio { num: 2, den: 1 },
            Ratio { num: 3, den: 2 },
            Ratio { num: 4, den: 3 },
            Ratio { num: 5, den: 4 },
            Ratio { num: 6, den: 5 },
            Ratio { num: 7, den: 6 },
            Ratio { num: 8, den: 7 },
            Ratio { num: 9, den: 8 },
        ],
    }
}

/// The top-edge ratios, leftmost button first.
pub open spec fn top_ratios() -> Seq<Ratio> {
    seq![
        Ratio { num: 1, den: 2 },
        Ratio { num: 2, den: 3 },
        Ratio { num: 3, den: 4 },
        Ratio { num: 4, den: 5 },
        Ratio { num: 5, den: 6 },
        Ratio { num: 6, den: 7 },
        Ratio { num: 7, den: 8 },
        Ratio { num: 8, den: 9 },
    ]
}

/// Product of the numerators of the ratios whose flag is set.
pub open spec fn held_num(flags: Seq<bool>, ratios: Seq<Ratio>) -> int
    decreases flags.len(),
{
    if flags.len() == 0 {
        1
    } else {
        let i = flags.len() - 1;
        held_num(flags.drop_last(), ratios) * (if flags[i] { ratios[i].num as int } else { 1 })
    }
}

/// Product of the denominators of the ratios whose flag is set.
pub open spec fn held_den(flags: Seq<bool>, ratios: Seq<Ratio>) -> int
    decreases flags.len(),
{
    if flags.len() == 0 {
        1
    } else {
        let i = flags.len() - 1;
        held_den(flags.drop_last(), ratios) * (if flags[i] { ratios[i].den as int } else { 1 })
    }
}

/// The product of the ratios whose flag is set, as a fraction.
pub open spec fn multiplier_of(flags: Seq<bool>, ratios: Seq<Ratio>) -> Ratio {
    Ratio { num: held_num(flags, ratios) as u64, den: held_den(flags, ratios) as u64 }
}

/// Which modifier buttons are held, and which right-edge table applies.
pub struct Modifiers {
    pub ratio_set: RatioSet,
    pub right: [bool; 8],
    pub top: [bool; 8],
}

impl Modifiers {
    /// The sixteen flags: right edge top to bottom, then top edge left to right.
    pub open spec fn flags(&self) -> Seq<bool> {
        self.right@ + self.top@
    }

    /// The ratio of each of the sixteen flags, in the order of `flags`.
    pub open spec fn ratios(&self) -> Seq<Ratio> {
        right_ratios(self.ratio_set) + top_ratios()
    }

    /// The multiplier as an exact fraction.
    pub open spec fn multiplier(&self) -> Ratio {
        multiplier_of(self.flags(), self.ratios())
    }

    /// No button held.
    pub fn new(ratio_set: RatioSet) -> (r: Modifiers)
        ensures
            r.ratio_set == ratio_set,
            forall|i: int| 0 <= i < 16 ==> !#[trigger] r.flags()[i],
    {
        Modifiers { ratio_set, right: [false; 8], top: [false; 8] }
    }

    /// The ratio of right-edge button `i` in the current ratio set.
    pub fn right_ratio(&self, i: usize) -> (r: Ratio)
        requires
            i < 8,
        ensures
            r == right_ratios(self.ratio_set)[i as int],
    {
        match self.ratio_set {
            RatioSet::Ascending => Ratio { num: 9 - i as u64, den: 8 - i as u64 },
            RatioSet::Descending => Ratio { num: i as u64 + 2, den: i as u64 + 1 },
        }
    }

    /// The ratio of top-edge button `i`.
    pub fn top_ratio(i: usize) -> (r: Ratio)
        requires
            i < 8,
        ensures
            r == top_ratios()[i as int],
    {
        Ratio { num: i as u64 + 1, den: i as u64 + 2 }
    }

    /// Holds or releases right-edge button `i`.
    pub fn set_right(&mut self, i: usize, held: bool)
        requires
            i < 8,
        ensures
            final(self).ratio_set == old(self).ratio_set,
            final(self).right@ == old(self).right@.update(i as int, held),
            final(self).top@ == old(self).top@,
            final(self).flags() == old(self).flags().update(i as int, held),
    {
        self.right[i] = held;
        assert(self.flags() =~= old(self).flags().update(i as int, held));
    }

    /// Holds or releases top-edge button `i`.
    pub fn set_top(&mut self, i: usize, held: bool)
        requires
            i < 8,
        ensures
            final(self).ratio_set == old(self).ratio_set,
            final(self).right@ == old(self).right@,
            final(self).top@ == old(self).top@.update(i as int, held),
            final(self).flags() == old(self).flags().update(8 + i as int, held),
    {
        self.top[i] = held;
        assert(self.flags() =~= old(self).flags().update(8 + i as int, held));
    }

    /// The product of the ratios of the held buttons.
    pub fn current_multiplier(&self) -> (r: Ratio)
        ensures
            r.num as int == held_num(self.flags(), self.ratios()),
            r.den as int == held_den(self.flags(), self.ratios()),
            r.num >= 1 && r.den >= 1,
            r == self.multiplier(),
    {
        let ghost flags = self.flags();
        let ghost ratios = self.ratios();
        proof {
            lemma_ratios_bounded(self.ratio_set);
            lemma_pow9_le(0, 16);
            reveal_with_fuel(pow9, 17);
        }
        let mut num: u64 = 1;
        let mut den: u64 = 1;
        let mut i: usize = 0;
        while i < 16
            invariant
                i <= 16,
                flags == self.flags(),
                ratios == self.ratios(),
                flags.len() == 16,
                ratios.len() == 16,
                forall|k: int| 0 <= k < 16 ==> 1 <= #[trigger] ratios[k].num <= 9 && 1 <= ratios[k].den <= 9,
                pow9(16) <= u64::MAX,
                num as int == held_num(flags.take(i as int), ratios),
                den as int == held_den(flags.take(i as int), ratios),
                1 <= num <= pow9(i as nat),
                1 <= den <= pow9(i as nat),
            decreases 16 - i,
        {
            let (held, ratio) = if i < 8 {
                (self.right[i], self.right_ratio(i))
            } else {
                (self.top[i - 8], Self::top_ratio(i - 8))
            };
            proof {
                assert(held == flags[i as int]);
                assert(ratio == ratios[i as int]);
                assert(flags.take(i as int + 1).drop_last() =~= flags.take(i as int));
                lemma_pow9_le(i as nat + 1, 16);
                assert(num * ratio.num <= pow9(i as nat) * 9) by (nonlinear_arith)
                    requires num <= pow9(i as nat), ratio.num <= 9, 1 <= ratio.num;
                assert(den * ratio.den <= pow9(i as nat) * 9) by (nonlinear_arith)
                    requires den <= pow9(i as nat), ratio.den <= 9, 1 <= ratio.den;
                assert(num * ratio.num >= 1) by (nonlinear_arith)
                    requires num >= 1, ratio.num >= 1;
                assert(den * ratio.den >= 1) by (nonlinear_arith)
                    requires den >= 1, ratio.den >= 1;
            }
            if held {
                num = num * ratio.num;
                den = den * ratio.den;
            }
            i = i + 1;
        }
        assert(flags.take(16) =~= flags);
        Ratio { num, den }
    }
}

/// Nine to the power `n`.
pub open spec fn pow9(n: nat) -> int
    decreases n,
{
    if n == 0 {
        1
    } else {
        9 * pow9((n - 1) as nat)
    }
}

proof fn lemma_pow9_le(a: nat, b: nat)
    requires
        a <= b,
    ensures
        1 <= pow9(a) <= pow9(b),
    decreases b,
{
    if a < b {
        lemma_pow9_le(a, (b - 1) as nat);
    } else if a > 0 {
        lemma_pow9_le((a - 1) as nat, (a - 1) as nat);
    }
}

proof fn lemma_ratios_bounded(set: RatioSet)
    ensures
        (right_ratios(set) + top_ratios()).len() == 16,
        forall|k: int| 0 <= k < 16 ==> 1 <= #[trigger] (right_ratios(set) + top_ratios())[k].num <= 9
            && 1 <= (right_ratios(set) + top_ratios())[k].den <= 9,
{
}

/// With no button held the multiplier is exactly one.
pub proof fn lemma_no_flags_unit(flags: Seq<bool>, ratios: Seq<Ratio>)
    requires
        forall|i: int| 0 <= i < flags.len() ==> !#[trigger] flags[i],
    ensures
        held_num(flags, ratios) == 1,
        held_den(flags, ratios) == 1,
    decreases flags.len(),
{
    if flags.len() > 0 {
        lemma_no_flags_unit(flags.drop_last(), ratios);
    }
}

/// Holding one released button multiplies the multiplier by that button's
/// ratio, numerator and denominator alike; releasing it again gives back the
/// flags, and so the multiplier, from before.
pub proof fn lemma_toggle_flag(flags: Seq<bool>, ratios: Seq<Ratio>, i: int)
    requires
        0 <= i < flags.len(),
        !flags[i],
    ensures
        held_num(flags.update(i, true), ratios) == held_num(flags, ratios) * ratios[i].num,
        held_den(flags.update(i, true), ratios) == held_den(flags, ratios) * ratios[i].den,
        flags.update(i, true).update(i, false) == flags,
    decreases flags.len(),
{
    let g = flags.update(i, true);
    let last = flags.len() - 1;
    if i < last {
        assert(g.drop_last() =~= flags.drop_last().update(i, true));
        lemma_toggle_flag(flags.drop_last(), ratios, i);
        let a = held_num(flags.drop_last(), ratios);
        let b = held_den(flags.drop_last(), ratios);
        let fa: int = if flags[last] { ratios[last].num as int } else { 1 };
        let fb: int = if flags[last] { ratios[last].den as int } else { 1 };
        let r = ratios[i].num as int;
        let s = ratios[i].den as int;
        assert(a * r * fa == a * fa * r) by (nonlinear_arith);
        assert(b * s * fb == b * fb * s) by (nonlinear_arith);
    } else {
        assert(g.drop_last() =~= flags.drop_last());
    }
    assert(flags.update(i, true).update(i, false) =~= flags);
}

} // verus!
