//! Settings that override defaults.
use super::scalar::Scalar;
use super::scalar::ONE_RANK;
use super::table::Table;
use super::text::{integer_value, parse_integer, pieces, same, split, trim, trimmed, views};
use vstd::prelude::*;

verus! {

/// The variables that are set: the text of each, and the number that the text
/// stands for where it stands for one.
pub struct Environment {
    texts: Table<String>,
    numbers: Table<Scalar>,
}

impl Environment {
    /// The text of a variable, if it is set.
    pub closed spec fn text_of(self, name: Seq<char>) -> Option<Seq<char>> {
        if self.texts@.contains_key(name) {
            Some(self.texts@[name]@)
        } else {
            None
        }
    }

    /// The number that the text of a variable stands for, if there is one.
    pub closed spec fn number_of(self, name: Seq<char>) -> Option<Scalar> {
        if self.numbers@.contains_key(name) {
            Some(self.numbers@[name])
        } else {
            None
        }
    }

    /// No variable is set.
    pub fn new() -> (r: Environment)
        ensures
            forall|n: Seq<char>| (#[trigger] r.text_of(n)) is None,
            forall|n: Seq<char>| (#[trigger] r.number_of(n)) is None,
    {
        Environment { texts: Table::new(), numbers: Table::new() }
    }

    /// Sets a variable.
    pub fn set(&mut self, name: &str, text: &str, number: Option<Scalar>)
        ensures
            final(self).text_of(name@) == Some(text@),
            final(self).number_of(name@) == number,
            forall|n: Seq<char>|
                (#[trigger] final(self).text_of(n)) == if n == name@ {
                    Some(text@)
                } else {
                    old(self).text_of(n)
                },
            forall|n: Seq<char>|
                (#[trigger] final(self).number_of(n)) == if n == name@ {
                    number
                } else {
                    old(self).number_of(n)
                },
    {
        self.texts.insert(name.to_owned(), text.to_owned());
        match number {
            Some(x) => {
                self.numbers.insert(name.to_owned(), x);
            },
            None => {
                let _gone = self.numbers.remove(name);
            },
        }
    }

    /// The text of a variable.
    pub fn text(&self, name: &str) -> (r: Option<&String>)
        ensures
            match r {
                Some(t) => self.text_of(name@) == Some(t@),
                None => self.text_of(name@) is None,
            },
    {
        self.texts.get(name)
    }

    /// The number that a variable stands for.
    pub fn number(&self, name: &str) -> (r: Option<Scalar>)
        ensures
            r == self.number_of(name@),
    {
        match self.numbers.get(name) {
            Some(x) => Some(*x),
            None => None,
        }
    }
}

/// The numbers that a setting takes; all of them are finite.
#[derive(Clone, Copy, Debug, PartialEq, Eq, Structural)]
pub enum Range {
    /// Above zero.
    Positive,
    /// Zero or above.
    NonNegative,
    /// Above zero and at most one.
    PositiveToOne,
    /// Above zero and below one.
    InsideUnit,
    /// From zero to one.
    Unit,
    /// Above zero and below the number with a rank.
    PositiveBelow(i64),
    /// Above zero and at most the number with a rank.
    PositiveTo(i64),
}

impl Range {
    /// Whether the range holds a number.
    pub open spec fn holds(self, x: Scalar) -> bool {
        x.spec_is_finite() && (x matches Scalar::Rank(a) && match self {
            Range::Positive => a > 0,
            Range::NonNegative => a >= 0,
            Range::PositiveToOne => 0 < a <= ONE_RANK,
            Range::InsideUnit => 0 < a < ONE_RANK,
            Range::Unit => 0 <= a <= ONE_RANK,
            Range::PositiveBelow(limit) => 0 < a < limit,
            Range::PositiveTo(limit) => 0 < a <= limit,
        })
    }

    pub fn admits(self, x: Scalar) -> (r: bool)
        ensures
            r == self.holds(x),
    {
        x.is_finite() && match x {
            Scalar::Undefined => false,
            Scalar::Rank(a) => match self {
                Range::Positive => a > 0,
                Range::NonNegative => a >= 0,
                Range::PositiveToOne => 0 < a && a <= ONE_RANK,
                Range::InsideUnit => 0 < a && a < ONE_RANK,
                Range::Unit => 0 <= a && a <= ONE_RANK,
                Range::PositiveBelow(limit) => 0 < a && a < limit,
                Range::PositiveTo(limit) => 0 < a && a <= limit,
            },
        }
    }
}

/// The number that a variable sets, where it lies in the range; else the default.
pub open spec fn number_setting(
    env: Environment,
    name: Seq<char>,
    range: Range,
    default: Scalar,
) -> Scalar {
    match env.number_of(name) {
        Some(x) => if range.holds(x) {
            x
        } else {
            default
        },
        None => default,
    }
}

/// Reads a number that a variable may set.
pub fn number_or(env: &Environment, name: &str, range: Range, default: Scalar) -> (r: Scalar)
    ensures
        r == number_setting(*env, name@, range, default),
{
    match env.number(name) {
        Some(x) => if range.admits(x) {
            x
        } else {
            default
        },
        None => default,
    }
}

/// The integer that a variable sets, where it lies in `min..=max`; else the default.
pub open spec fn integer_setting(
    env: Environment,
    name: Seq<char>,
    signed: bool,
    min: int,
    max: int,
    default: int,
) -> int {
    match env.text_of(name) {
        Some(t) => match integer_value(t, signed) {
            Some(x) => if min <= x <= max {
                x
            } else {
                default
            },
            None => default,
        },
        None => default,
    }
}

/// Reads an unsigned integer that a variable may set.
pub fn unsigned_or(env: &Environment, name: &str, min: u64, max: u64, default: u64) -> (r: u64)
    requires
        min <= max,
    ensures
        r == integer_setting(*env, name@, false, min as int, max as int, default as int),
{
    match env.text(name) {
        Some(t) => match parse_integer(t.as_str(), false, min as i128, max as i128) {
            Some(x) => x as u64,
            None => default,
        },
        None => default,
    }
}

/// Reads a size that a variable may set.
pub fn size_or(env: &Environment, name: &str, min: usize, max: usize, default: usize) -> (r: usize)
    requires
        min <= max,
    ensures
        r == integer_setting(*env, name@, false, min as int, max as int, default as int),
{
    match env.text(name) {
        Some(t) => match parse_integer(t.as_str(), false, min as i128, max as i128) {
            Some(x) => x as usize,
            None => default,
        },
        None => default,
    }
}

/// Reads a small unsigned integer that a variable may set.
pub fn small_or(env: &Environment, name: &str, min: u32, max: u32, default: u32) -> (r: u32)
    requires
        min <= max,
    ensures
        r == integer_setting(*env, name@, false, min as int, max as int, default as int),
{
    match env.text(name) {
        Some(t) => match parse_integer(t.as_str(), false, min as i128, max as i128) {
            Some(x) => x as u32,
            None => default,
        },
        None => default,
    }
}

/// Reads an integer that a variable may set.
pub fn signed_or(env: &Environment, name: &str, min: i64, max: i64, default: i64) -> (r: i64)
    requires
        min <= max,
    ensures
        r == integer_setting(*env, name@, true, min as int, max as int, default as int),
{
    match env.text(name) {
        Some(t) => match parse_integer(t.as_str(), true, min as i128, max as i128) {
            Some(x) => x as i64,
            None => default,
        },
        None => default,
    }
}

/// The texts that switch a flag on.
pub open spec fn means_on(t: Seq<char>) -> bool {
    t == "1"@ || t == "true"@ || t == "TRUE"@ || t == "on"@ || t == "ON"@
}

/// Whether a variable switches a flag on; the default where it is not set.
pub open spec fn flag_setting(env: Environment, name: Seq<char>, default: bool) -> bool {
    match env.text_of(name) {
        Some(t) => means_on(t),
        None => default,
    }
}

/// Reads a flag that a variable may set.
pub fn flag_or(env: &Environment, name: &str, default: bool) -> (r: bool)
    ensures
        r == flag_setting(*env, name@, default),
{
    match env.text(name) {
        Some(t) => same(t.as_str(), "1") || same(t.as_str(), "true") || same(t.as_str(), "TRUE") || same(
            t.as_str(),
            "on",
        ) || same(t.as_str(), "ON"),
        None => default,
    }
}

/// The pieces that are not blank, without the white space around them.
pub open spec fn kept_pieces(s: Seq<Seq<char>>) -> Seq<Seq<char>>
    decreases s.len(),
{
    if s.len() == 0 {
        Seq::empty()
    } else {
        let rest = kept_pieces(s.drop_last());
        if trimmed(s.last()).len() > 0 {
            rest.push(trimmed(s.last()))
        } else {
            rest
        }
    }
}

/// The items of a list that is written with `,` between them, blank ones left out.
pub fn list_items(t: &str) -> (r: Vec<String>)
    ensures
        views(r@) == kept_pieces(pieces(t@, ',')),
{
    let parts = split(t, ',');
    let mut r: Vec<String> = Vec::new();
    let mut i: usize = 0;
    assert(views(r@) =~= kept_pieces(views(parts@).take(0)));
    while i < parts.len()
        invariant
            i <= parts.len(),
            views(r@) == kept_pieces(views(parts@).take(i as int)),
        decreases parts.len() - i,
    {
        let ghost upto = views(parts@).take(i as int + 1);
        assert(upto.drop_last() =~= views(parts@).take(i as int));
        let item = trim(parts[i].as_str());
        if !item.as_str().is_empty() {
            let ghost before = r@;
            r.push(item);
            assert(views(r@) =~= views(before).push(item@));
        }
        i = i + 1;
    }
    assert(views(parts@).take(i as int) =~= views(parts@));
    r
}

/// A number that a variable sets is taken where its range holds it, and the default
/// elsewhere.
pub proof fn law_number_is_taken_within_its_range(
    env: Environment,
    name: &str,
    range: Range,
    default: Scalar,
    r: Scalar,
)
    requires
        call_ensures(number_or, (&env, name, range, default), r),
    ensures
        env.number_of(name@) is None ==> r == default,
        env.number_of(name@) matches Some(x) ==> {
            &&& r == x || r == default
            &&& !x.spec_is_finite() ==> r == default
            &&& x.spec_is_finite() ==> (x matches Scalar::Rank(a) && match range {
                Range::Positive => r == if a > 0 { x } else { default },
                Range::NonNegative => r == if a >= 0 { x } else { default },
                Range::PositiveToOne => r == if a > 0 && a <= ONE_RANK { x } else { default },
                Range::InsideUnit => r == if a > 0 && a < ONE_RANK { x } else { default },
                Range::Unit => r == if a >= 0 && a <= ONE_RANK { x } else { default },
                Range::PositiveBelow(limit) => r == if a > 0 && a < limit { x } else { default },
                Range::PositiveTo(limit) => r == if a > 0 && a <= limit { x } else { default },
            })
        },
{
}

/// An integer that a variable sets is taken where it lies between its bounds, and the
/// default elsewhere.
pub proof fn law_integer_is_taken_within_its_bounds(
    env: Environment,
    name: &str,
    min: i64,
    max: i64,
    default: i64,
    r: i64,
)
    requires
        call_ensures(signed_or, (&env, name, min, max, default), r),
    ensures
        r == default || min <= r <= max,
        env.text_of(name@) is None ==> r == default,
        env.text_of(name@) matches Some(t) ==> match integer_value(t, true) {
            None => r == default,
            Some(x) => if x < min || x > max {
                r == default
            } else {
                r == x
            },
        },
{
}

/// The same holds of numbers without a sign.
pub proof fn law_unsigned_is_taken_within_its_bounds(
    env: Environment,
    name: &str,
    min: u64,
    max: u64,
    default: u64,
    r: u64,
)
    requires
        call_ensures(unsigned_or, (&env, name, min, max, default), r),
    ensures
        r == default || min <= r <= max,
        env.text_of(name@) is None ==> r == default,
        env.text_of(name@) matches Some(t) ==> match integer_value(t, false) {
            None => r == default,
            Some(x) => if x < min || x > max {
                r == default
            } else {
                r == x
            },
        },
{
}

/// A flag is switched on by a few texts, off by every other, and left alone where it is
/// not set.
pub proof fn law_flag_is_switched_by_its_text(env: Environment, name: &str, default: bool, r: bool)
    requires
        call_ensures(flag_or, (&env, name, default), r),
    ensures
        env.text_of(name@) is None ==> r == default,
        env.text_of(name@) matches Some(t) ==> (r <==> t == "1"@ || t == "true"@ || t == "TRUE"@ || t == "on"@
            || t == "ON"@),
{
}

/// A figure is the number that a variable stands for, wherever that is a finite one above
/// zero; any other leaves a figure above zero.
pub open spec fn set_above_zero(env: Environment, name: Seq<char>, got: Scalar) -> bool {
    let x = env.number_of(name)->0;
    &&& env.number_of(name) is Some && x.spec_is_finite() && Scalar::Rank(0).spec_lt(x) ==> got == x
    &&& Scalar::Rank(0).spec_lt(got)
}

/// A figure is the number that a variable stands for, wherever that is a finite one not below
/// zero; any other leaves a figure not below zero.
pub open spec fn set_from_zero(env: Environment, name: Seq<char>, got: Scalar) -> bool {
    let x = env.number_of(name)->0;
    &&& env.number_of(name) is Some && x.spec_is_finite() && Scalar::Rank(0).spec_le(x) ==> got == x
    &&& Scalar::Rank(0).spec_le(got)
}

/// A figure is the number that a variable stands for, wherever that lies above zero and up to
/// a bound; it always lies there.
pub open spec fn set_up_to(env: Environment, name: Seq<char>, most: Scalar, got: Scalar) -> bool {
    let x = env.number_of(name)->0;
    &&& env.number_of(name) is Some && Scalar::Rank(0).spec_lt(x) && x.spec_le(most) ==> got == x
    &&& Scalar::Rank(0).spec_lt(got) && got.spec_le(most)
}

/// A figure is the number that a variable stands for, wherever that lies above zero and below
/// a bound; it always lies there.
pub open spec fn set_below(env: Environment, name: Seq<char>, bound: Scalar, got: Scalar) -> bool {
    let x = env.number_of(name)->0;
    &&& env.number_of(name) is Some && Scalar::Rank(0).spec_lt(x) && x.spec_lt(bound) ==> got == x
    &&& Scalar::Rank(0).spec_lt(got) && got.spec_lt(bound)
}

/// A share is the number that a variable stands for, wherever that lies from zero to one; it
/// always lies there.
pub open spec fn set_in_unit(env: Environment, name: Seq<char>, got: Scalar) -> bool {
    let x = env.number_of(name)->0;
    &&& env.number_of(name) is Some && Scalar::Rank(0).spec_le(x) && x.spec_le(Scalar::Rank(ONE_RANK)) ==> got == x
    &&& Scalar::Rank(0).spec_le(got) && got.spec_le(Scalar::Rank(ONE_RANK))
}

/// A whole number is the one that a variable stands for, wherever that lies from one bound to
/// another; it always lies there.
pub open spec fn set_whole(env: Environment, name: Seq<char>, signed: bool, least: int, most: int, got: int) -> bool {
    let x = integer_value(env.text_of(name)->0, signed);
    &&& env.text_of(name) is Some && x is Some && least <= x->0 <= most ==> got == x->0
    &&& least <= got <= most
}

/// A flag is on where its variable says so in one of five ways, off where it says anything
/// else, and as it is elsewhere.
pub open spec fn set_flag(env: Environment, name: Seq<char>, default: bool, got: bool) -> bool {
    let t = env.text_of(name)->0;
    let on = t == "1"@ || t == "true"@ || t == "TRUE"@ || t == "on"@ || t == "ON"@;
    &&& env.text_of(name) is Some ==> got == on
    &&& env.text_of(name) is None ==> got == default
}

/// No variable is set.
pub open spec fn is_unset(env: Environment) -> bool {
    &&& forall|n: Seq<char>| (#[trigger] env.text_of(n)) is None
    &&& forall|n: Seq<char>| (#[trigger] env.number_of(n)) is None
}

/// A variable that is set is found as it was set, and no other changes.
pub proof fn law_set_variables_are_found(
    env: &mut Environment,
    var: &str,
    value: &str,
    figure: Option<Scalar>,
    after: Environment,
    t: Option<&String>,
    found: Option<Scalar>,
    other: &str,
    before: Environment,
    other_before: Option<Scalar>,
    other_after: Option<Scalar>,
)
    requires
        call_ensures(Environment::set, (env, var, value, figure), ()),
        before == *old(env),
        after == *final(env),
        call_ensures(Environment::text, (&after, var), t),
        call_ensures(Environment::number, (&after, var), found),
        other@ != var@,
        call_ensures(Environment::number, (&before, other), other_before),
        call_ensures(Environment::number, (&after, other), other_after),
    ensures
        t is Some && t->0@ == value@,
        found == figure,
        other_after == other_before,
{
    assert(final(env).text_of(var@) == Some(value@));
    assert(final(env).number_of(var@) == figure);
    assert(final(env).number_of(other@) == old(env).number_of(other@));
}

/// Each range admits the finite numbers that it is called after.
pub proof fn law_ranges_admit_their_numbers(x: Scalar, a: bool, b: bool, c: bool, d: bool, e: bool)
    requires
        call_ensures(Range::admits, (Range::Positive, x), a),
        call_ensures(Range::admits, (Range::NonNegative, x), b),
        call_ensures(Range::admits, (Range::PositiveToOne, x), c),
        call_ensures(Range::admits, (Range::InsideUnit, x), d),
        call_ensures(Range::admits, (Range::Unit, x), e),
    ensures
        ({
            let nought = Scalar::Rank(0);
            let one = Scalar::Rank(ONE_RANK);
            &&& a <==> x.spec_is_finite() && nought.spec_lt(x)
            &&& b <==> x.spec_is_finite() && nought.spec_le(x)
            &&& c <==> nought.spec_lt(x) && x.spec_le(one)
            &&& d <==> nought.spec_lt(x) && x.spec_lt(one)
            &&& e <==> nought.spec_le(x) && x.spec_le(one)
        }),
{
}

proof fn lemma_kept(s: Seq<Seq<char>>)
    ensures
        kept_pieces(s).len() <= s.len(),
        forall|i: int| 0 <= i < kept_pieces(s).len() ==> (#[trigger] kept_pieces(s)[i]).len() > 0,
        forall|i: int| 0 <= i < s.len() && trimmed(#[trigger] s[i]).len() > 0 ==> kept_pieces(s).contains(trimmed(s[i])),
    decreases s.len(),
{
    if s.len() > 0 {
        let front = s.drop_last();
        let before = kept_pieces(front);
        let all = kept_pieces(s);
        lemma_kept(front);
        assert forall|i: int| 0 <= i < s.len() && trimmed(#[trigger] s[i]).len() > 0 implies all.contains(
            trimmed(s[i]),
        ) by {
            if i < front.len() {
                assert(front[i] == s[i]);
                let k = choose|k: int| 0 <= k < before.len() && before[k] == trimmed(s[i]);
                assert(all[k] == trimmed(s[i]));
            } else {
                assert(all[before.len() as int] == trimmed(s[i]));
            }
        }
    }
}

/// A list holds what stands between its commas, without the white space around it, and
/// nothing that is blank.
pub proof fn law_lists_hold_what_is_not_blank(t: &str, r: Vec<String>, i: int, k: int)
    requires
        call_ensures(list_items, (t,), r),
    ensures
        0 <= i < r.len() ==> r[i]@.len() > 0,
        0 <= k < pieces(t@, ',').len() && trimmed(pieces(t@, ',')[k]).len() > 0 ==> views(r@).contains(
            trimmed(pieces(t@, ',')[k]),
        ),
{
    lemma_kept(pieces(t@, ','));
    if 0 <= i < r.len() {
        assert(views(r@)[i] == r[i]@);
    }
}

} // verus!
