use vstd::prelude::*;

verus! {

/// Per-unit macro-nutrient profile: each field is the amount contained in one
/// unit of quantity.
#[derive(Clone, Copy, PartialEq, Eq, Structural, Debug)]
pub struct Macros {
    pub kcal: u32,
    pub fat: u32,
    pub carbs: u32,
    pub protein: u32,
}

/// Derived macro totals of an ingredient, a recipe, or a consumption.
#[derive(Clone, Copy, PartialEq, Eq, Structural, Debug)]
pub struct MacroTotals {
    pub kcal: u128,
    pub fat: u128,
    pub carbs: u128,
    pub protein: u128,
}

/// Mathematical value of a set of macro totals.
pub ghost struct TotalsModel {
    pub kcal: int,
    pub fat: int,
    pub carbs: int,
    pub protein: int,
}

impl View for MacroTotals {
    type V = TotalsModel;

    open spec fn view(&self) -> TotalsModel {
        TotalsModel {
            kcal: self.kcal as int,
            fat: self.fat as int,
            carbs: self.carbs as int,
            protein: self.protein as int,
        }
    }
}

/// Totals of an empty collection of contributions.
pub open spec fn zero_totals() -> TotalsModel {
    TotalsModel { kcal: 0, fat: 0, carbs: 0, protein: 0 }
}

pub open spec fn totals_add(a: TotalsModel, b: TotalsModel) -> TotalsModel {
    TotalsModel {
        kcal: a.kcal + b.kcal,
        fat: a.fat + b.fat,
        carbs: a.carbs + b.carbs,
        protein: a.protein + b.protein,
    }
}

pub open spec fn totals_sub(a: TotalsModel, b: TotalsModel) -> TotalsModel {
    TotalsModel {
        kcal: a.kcal - b.kcal,
        fat: a.fat - b.fat,
        carbs: a.carbs - b.carbs,
        protein: a.protein - b.protein,
    }
}

/// Contribution of `quantity` units of a profile: each macro scaled by the
/// quantity. This is the total of a food-based consumption and the term one
/// ingredient adds to its recipe.
pub open spec fn scaled_totals(m: Macros, quantity: u16) -> TotalsModel {
    TotalsModel {
        kcal: m.kcal * quantity,
        fat: m.fat * quantity,
        carbs: m.carbs * quantity,
        protein: m.protein * quantity,
    }
}

/// Totals of a consumption of `quantity` units of a recipe whose aggregate
/// ingredient totals are `total` and whose yield is `yield_quantity`: the
/// recipe's per-unit totals times the consumed quantity.
pub open spec fn portion_totals(total: TotalsModel, yield_quantity: u16, quantity: u16) -> TotalsModel {
    if yield_quantity == 0 {
        zero_totals()
    } else {
        TotalsModel {
            kcal: total.kcal / (yield_quantity as int) * quantity,
            fat: total.fat / (yield_quantity as int) * quantity,
            carbs: total.carbs / (yield_quantity as int) * quantity,
            protein: total.protein / (yield_quantity as int) * quantity,
        }
    }
}

/// Whether a mathematical total is representable in the executable fields.
pub open spec fn totals_fit_u128(t: TotalsModel) -> bool {
    &&& t.kcal <= u128::MAX
    &&& t.fat <= u128::MAX
    &&& t.carbs <= u128::MAX
    &&& t.protein <= u128::MAX
}

/// Every term of an aggregate total is one profile scaled by one quantity, so
/// it is below this bound.
pub open spec fn term_bounded(t: TotalsModel) -> bool {
    &&& 0 <= t.kcal < 0x1_0000_0000_0000
    &&& 0 <= t.fat < 0x1_0000_0000_0000
    &&& 0 <= t.carbs < 0x1_0000_0000_0000
    &&& 0 <= t.protein < 0x1_0000_0000_0000
}

/// An aggregate of at most `usize::MAX` bounded terms stays below this bound.
pub open spec fn total_bounded(t: TotalsModel) -> bool {
    &&& 0 <= t.kcal < 0x1_0000_0000_0000_0000_0000_0000_0000
    &&& 0 <= t.fat < 0x1_0000_0000_0000_0000_0000_0000_0000
    &&& 0 <= t.carbs < 0x1_0000_0000_0000_0000_0000_0000_0000
    &&& 0 <= t.protein < 0x1_0000_0000_0000_0000_0000_0000_0000
}

proof fn lemma_scaled_term_fits(a: int, b: int)
    requires
        0 <= a < 0x1_0000_0000,
        0 <= b < 0x1_0000,
    ensures
        0 <= a * b < 0x1_0000_0000_0000,
{
    assert(0 <= a * b < 0x1_0000_0000_0000) by (nonlinear_arith)
        requires
            0 <= a < 0x1_0000_0000,
            0 <= b < 0x1_0000,
    ;
}

proof fn lemma_portion_term_fits(t: int, y: int, q: int)
    requires
        0 <= t < 0x1_0000_0000_0000_0000_0000_0000_0000,
        1 <= y,
        0 <= q < 0x1_0000,
    ensures
        0 <= t / y * q < 0x1_0000_0000_0000_0000_0000_0000_0000_0000,
{
    assert(0 <= t / y <= t) by (nonlinear_arith)
        requires
            0 <= t,
            1 <= y,
    ;
    assert(0 <= t / y * q < 0x1_0000_0000_0000_0000_0000_0000_0000_0000) by (nonlinear_arith)
        requires
            0 <= t / y < 0x1_0000_0000_0000_0000_0000_0000_0000,
            0 <= q < 0x1_0000,
    ;
}

impl MacroTotals {
    pub fn zero() -> (t: MacroTotals)
        ensures
            t@ == zero_totals(),
    {
        MacroTotals { kcal: 0, fat: 0, carbs: 0, protein: 0 }
    }

    /// The contribution of `quantity` units of the profile `m`.
    pub fn scaled(m: &Macros, quantity: u16) -> (t: MacroTotals)
        ensures
            t@ == scaled_totals(*m, quantity),
            term_bounded(t@),
    {
        proof {
            lemma_scaled_term_fits(m.kcal as int, quantity as int);
            lemma_scaled_term_fits(m.fat as int, quantity as int);
            lemma_scaled_term_fits(m.carbs as int, quantity as int);
            lemma_scaled_term_fits(m.protein as int, quantity as int);
        }
        MacroTotals {
            kcal: (m.kcal as u128) * (quantity as u128),
            fat: (m.fat as u128) * (quantity as u128),
            carbs: (m.carbs as u128) * (quantity as u128),
            protein: (m.protein as u128) * (quantity as u128),
        }
    }

    /// The totals of a consumption of `quantity` units out of a recipe with
    /// aggregate totals `self` and yield `yield_quantity`.
    pub fn portion(&self, yield_quantity: u16, quantity: u16) -> (t: MacroTotals)
        requires
            total_bounded(self@),
        ensures
            t@ == portion_totals(self@, yield_quantity, quantity),
    {
        if yield_quantity == 0 {
            MacroTotals::zero()
        } else {
            proof {
                lemma_portion_term_fits(self.kcal as int, yield_quantity as int, quantity as int);
                lemma_portion_term_fits(self.fat as int, yield_quantity as int, quantity as int);
                lemma_portion_term_fits(self.carbs as int, yield_quantity as int, quantity as int);
                lemma_portion_term_fits(self.protein as int, yield_quantity as int, quantity as int);
            }
            MacroTotals {
                kcal: self.kcal / (yield_quantity as u128) * (quantity as u128),
                fat: self.fat / (yield_quantity as u128) * (quantity as u128),
                carbs: self.carbs / (yield_quantity as u128) * (quantity as u128),
                protein: self.protein / (yield_quantity as u128) * (quantity as u128),
            }
        }
    }
}

} // verus!
