//! The duration grammar: free-form duration text to milliseconds.
//!
//! A duration expression is one or more terms, each a quantity followed by
//! a unit spelling ("2 weeks, 5hrs", "60secs", "5wk 5d").  Terms may be
//! separated by any mix of whitespace and commas, in any order, and
//! repeated units are additive: "5weeks, 2weeks" equals "7weeks".
//! Quantities may carry underscores or commas as visual separators.
//!
//! [`parse_time`] tokenizes the whole string into (quantity, unit) pairs,
//! resolves each unit through the [`crate::lexicon`], and accumulates
//! `quantity * unit_millis` into a 128-bit total with explicit overflow
//! detection.  The parse is atomic: any ill-formed token fails the whole
//! parse, and no partial total is ever returned.

use vstd::prelude::*;
use crate::lexicon;
use crate::text;

verus! {

/// Why a duration expression failed to parse.
#[derive(Debug, Clone, Copy, PartialEq, Eq, Structural)]
pub enum ParseError {
    /// The text was blank: empty, or nothing but separators.
    Empty,
    /// The text does not fit the grammar; `at` is the character index of
    /// the offending token.
    Syntax { at: usize },
    /// The accumulated millisecond total exceeds the representable range.
    Overflow,
}

/// `c` separates duration terms: whitespace or a comma.
pub open spec fn spec_is_separator(c: char) -> bool {
    c == ' ' || c == '\t' || c == '\n' || c == '\r' || c == ','
}

/// `c` may appear in a quantity: a digit, or an underscore or comma used
/// as a visual separator.
pub open spec fn spec_is_quantity_char(c: char) -> bool {
    text::spec_is_digit(c) || c == '_' || c == ','
}

/// `c` may appear in a unit spelling: an ASCII letter.
pub open spec fn spec_is_letter(c: char) -> bool {
    (97 <= c as u32 && c as u32 <= 122) || (65 <= c as u32 && c as u32 <= 90)
}

/// First position at or after `i` that does not hold a separator.
pub open spec fn spec_skip_separators(s: Seq<char>, i: int) -> int
    decreases s.len() - i,
{
    if i < s.len() && spec_is_separator(s[i]) {
        spec_skip_separators(s, i + 1)
    } else {
        i
    }
}

/// First position at or after `i` that does not hold a quantity character.
pub open spec fn spec_scan_quantity(s: Seq<char>, i: int) -> int
    decreases s.len() - i,
{
    if i < s.len() && spec_is_quantity_char(s[i]) {
        spec_scan_quantity(s, i + 1)
    } else {
        i
    }
}

/// First position at or after `i` that does not hold a letter.
pub open spec fn spec_scan_letters(s: Seq<char>, i: int) -> int
    decreases s.len() - i,
{
    if i < s.len() && spec_is_letter(s[i]) {
        spec_scan_letters(s, i + 1)
    } else {
        i
    }
}

/// Value of the quantity run `s[i..j)`: digits accumulate left to right,
/// underscores and commas are skipped.
pub open spec fn spec_quantity_value(s: Seq<char>, i: int, j: int) -> int
    decreases j - i,
{
    if i >= j {
        0
    } else if text::spec_is_digit(s[j - 1]) {
        spec_quantity_value(s, i, j - 1) * 10 + text::spec_digit_val(s[j - 1])
    } else {
        spec_quantity_value(s, i, j - 1)
    }
}

/// Total milliseconds of a term list: the sum over all terms of
/// `quantity * unit_millis`, in unbounded arithmetic.
pub open spec fn spec_terms_total(terms: Seq<(int, int)>) -> int
    decreases terms.len(),
{
    if terms.len() == 0 {
        0
    } else {
        terms[0].0 * terms[0].1 + spec_terms_total(terms.drop_first())
    }
}

proof fn lemma_skip_separators_bounds(s: Seq<char>, i: int)
    ensures
        i <= spec_skip_separators(s, i),
        i <= s.len() ==> spec_skip_separators(s, i) <= s.len(),
    decreases s.len() - i,
{
    if i < s.len() && spec_is_separator(s[i]) {
        lemma_skip_separators_bounds(s, i + 1);
    }
}

proof fn lemma_scan_quantity_bounds(s: Seq<char>, i: int)
    ensures
        i <= spec_scan_quantity(s, i),
        i <= s.len() ==> spec_scan_quantity(s, i) <= s.len(),
    decreases s.len() - i,
{
    if i < s.len() && spec_is_quantity_char(s[i]) {
        lemma_scan_quantity_bounds(s, i + 1);
    }
}

proof fn lemma_scan_letters_bounds(s: Seq<char>, i: int)
    ensures
        i <= spec_scan_letters(s, i),
        i <= s.len() ==> spec_scan_letters(s, i) <= s.len(),
    decreases s.len() - i,
{
    if i < s.len() && spec_is_letter(s[i]) {
        lemma_scan_letters_bounds(s, i + 1);
    }
}

proof fn lemma_skip_separators_idempotent(s: Seq<char>, i: int)
    ensures
        spec_skip_separators(s, spec_skip_separators(s, i)) == spec_skip_separators(s, i),
    decreases s.len() - i,
{
    if i < s.len() && spec_is_separator(s[i]) {
        lemma_skip_separators_idempotent(s, i + 1);
    }
}

/// The token list of the expression from position `i` on: each token is a
/// (quantity, unit milliseconds) pair, or the first grammar error.
pub open spec fn spec_tokens_from(s: Seq<char>, i: int) -> Result<Seq<(int, int)>, ParseError>
    decreases s.len() - i,
        via spec_tokens_from_decreases
{
    let j = spec_skip_separators(s, i);
    if j >= s.len() {
        Ok(Seq::empty())
    } else if !text::spec_is_digit(s[j]) {
        Err(ParseError::Syntax { at: j as usize })
    } else {
        let q_end = spec_scan_quantity(s, j);
        let quantity = spec_quantity_value(s, j, q_end);
        let u_start = spec_skip_separators(s, q_end);
        let u_end = spec_scan_letters(s, u_start);
        if u_end == u_start {
            Err(ParseError::Syntax { at: u_start as usize })
        } else {
            match lexicon::spec_resolve(s.subrange(u_start, u_end)) {
                Some(m) => match spec_tokens_from(s, u_end) {
                    Ok(rest) => Ok(seq![(quantity, m as int)] + rest),
                    Err(e) => Err(e),
                },
                None => Err(ParseError::Syntax { at: u_start as usize }),
            }
        }
    }
}

#[via_fn]
proof fn spec_tokens_from_decreases(s: Seq<char>, i: int) {
    lemma_skip_separators_bounds(s, i);
    let j = spec_skip_separators(s, i);
    if j < s.len() && text::spec_is_digit(s[j]) {
        assert(spec_scan_quantity(s, j) == spec_scan_quantity(s, j + 1));
        lemma_scan_quantity_bounds(s, j + 1);
        let q_end = spec_scan_quantity(s, j);
        lemma_skip_separators_bounds(s, q_end);
        let u_start = spec_skip_separators(s, q_end);
        lemma_scan_letters_bounds(s, u_start);
    }
}

proof fn lemma_tokens_from_at_skip(s: Seq<char>, i: int)
    ensures
        spec_tokens_from(s, spec_skip_separators(s, i)) == spec_tokens_from(s, i),
{
    lemma_skip_separators_idempotent(s, i);
}

/// The token list of a whole expression; blank input is rejected first.
pub open spec fn spec_tokens(s: Seq<char>) -> Result<Seq<(int, int)>, ParseError> {
    if spec_skip_separators(s, 0) == s.len() {
        Err(ParseError::Empty)
    } else {
        spec_tokens_from(s, 0)
    }
}

/// What parsing a duration expression must yield: the exact term-list
/// total when it is representable, `Overflow` when it is not, and the
/// first grammar error otherwise.
pub open spec fn spec_parse_time(s: Seq<char>) -> Result<int, ParseError> {
    match spec_tokens(s) {
        Ok(terms) => if spec_terms_total(terms) > u128::MAX {
            Err(ParseError::Overflow)
        } else {
            Ok(spec_terms_total(terms))
        },
        Err(e) => Err(e),
    }
}

/// A parse result with its total widened to an unbounded integer, for
/// comparison against [`spec_parse_time`].
pub open spec fn spec_result_view(r: Result<u128, ParseError>) -> Result<int, ParseError> {
    match r {
        Ok(v) => Ok(v as int),
        Err(e) => Err(e),
    }
}

fn is_separator_char(c: char) -> (r: bool)
    ensures
        r == spec_is_separator(c),
{
    c == ' ' || c == '\t' || c == '\n' || c == '\r' || c == ','
}

fn is_quantity_char(c: char) -> (r: bool)
    ensures
        r == spec_is_quantity_char(c),
{
    text::is_digit_char(c) || c == '_' || c == ','
}

fn is_letter_char(c: char) -> (r: bool)
    ensures
        r == spec_is_letter(c),
{
    let n = c as u32;
    (97 <= n && n <= 122) || (65 <= n && n <= 90)
}

proof fn lemma_quantity_value_nonneg(s: Seq<char>, i: int, j: int)
    ensures
        spec_quantity_value(s, i, j) >= 0,
    decreases j - i,
{
    if i < j {
        lemma_quantity_value_nonneg(s, i, j - 1);
    }
}

proof fn lemma_terms_total_push(terms: Seq<(int, int)>, t: (int, int))
    ensures
        spec_terms_total(terms.push(t)) == spec_terms_total(terms) + t.0 * t.1,
    decreases terms.len(),
{
    if terms.len() == 0 {
        assert(terms.push(t)[0] == t);
        assert(terms.push(t).drop_first() =~= Seq::<(int, int)>::empty());
        assert(spec_terms_total(Seq::<(int, int)>::empty()) == 0);
        assert(spec_terms_total(terms.push(t)) == t.0 * t.1);
    } else {
        lemma_terms_total_push(terms.drop_first(), t);
        assert(terms.push(t)[0] == terms[0]);
        assert(terms.push(t).drop_first() =~= terms.drop_first().push(t));
        assert(spec_terms_total(terms.push(t)) == terms[0].0 * terms[0].1 + spec_terms_total(
            terms.drop_first().push(t),
        ));
    }
}

/// The cursor of the recursive-descent scan: the expression's characters
/// and the current position in them.
pub struct TimeParser {
    chars: Vec<char>,
    pos: usize,
}

impl TimeParser {
    fn new(input: &str) -> (p: TimeParser)
        ensures
            p.chars@ == input@,
            p.pos == 0,
    {
        TimeParser { chars: text::str_to_chars(input), pos: 0 }
    }

    fn at_end(&self) -> (r: bool)
        ensures
            r == (self.pos == self.chars@.len()),
    {
        self.pos == self.chars.len()
    }

    fn skip_separators(&mut self)
        requires
            old(self).pos <= old(self).chars@.len(),
        ensures
            final(self).chars@ == old(self).chars@,
            final(self).pos == spec_skip_separators(old(self).chars@, old(self).pos as int),
            old(self).pos <= final(self).pos <= final(self).chars@.len(),
    {
        let ghost s = self.chars@;
        let ghost p0 = self.pos as int;
        while self.pos < self.chars.len()
            invariant
                s == old(self).chars@,
                p0 == old(self).pos as int,
                self.chars@ == s,
                p0 <= self.pos <= s.len(),
                spec_skip_separators(s, p0) == spec_skip_separators(s, self.pos as int),
            decreases s.len() - self.pos,
        {
            let c = self.chars[self.pos];
            if !is_separator_char(c) {
                return ;
            }
            self.pos = self.pos + 1;
        }
    }

    /// Reads one quantity run.  Returns its value and an overflow flag:
    /// when the digits exceed `u128`, the flag is set and the value is
    /// meaningless.
    fn read_quantity(&mut self) -> (res: (u128, bool))
        requires
            old(self).pos < old(self).chars@.len(),
            text::spec_is_digit(old(self).chars@[old(self).pos as int]),
        ensures
            final(self).chars@ == old(self).chars@,
            final(self).pos == spec_scan_quantity(old(self).chars@, old(self).pos as int),
            old(self).pos < final(self).pos <= final(self).chars@.len(),
            !res.1 ==> res.0 == spec_quantity_value(
                old(self).chars@,
                old(self).pos as int,
                final(self).pos as int,
            ),
            res.1 ==> spec_quantity_value(old(self).chars@, old(self).pos as int, final(self).pos as int)
                > u128::MAX,
    {
        let ghost s = self.chars@;
        let ghost start = self.pos as int;
        let mut value: u128 = 0;
        let mut over: bool = false;
        while self.pos < self.chars.len()
            invariant
                self.chars@ == s,
                start <= self.pos <= s.len(),
                spec_scan_quantity(s, start) == spec_scan_quantity(s, self.pos as int),
                !over ==> value == spec_quantity_value(s, start, self.pos as int),
                over ==> spec_quantity_value(s, start, self.pos as int) > u128::MAX,
            ensures
                self.chars@ == s,
                start <= self.pos <= s.len(),
                spec_scan_quantity(s, start) == spec_scan_quantity(s, self.pos as int),
                self.pos == s.len() || !spec_is_quantity_char(s[self.pos as int]),
                !over ==> value == spec_quantity_value(s, start, self.pos as int),
                over ==> spec_quantity_value(s, start, self.pos as int) > u128::MAX,
            decreases s.len() - self.pos,
        {
            let c = self.chars[self.pos];
            if !is_quantity_char(c) {
                break ;
            }
            proof {
                assert(spec_quantity_value(s, start, self.pos as int + 1) == (
                if text::spec_is_digit(s[self.pos as int]) {
                    spec_quantity_value(s, start, self.pos as int) * 10 + text::spec_digit_val(
                        s[self.pos as int],
                    )
                } else {
                    spec_quantity_value(s, start, self.pos as int)
                }));
            }
            if text::is_digit_char(c) {
                let d = text::digit_val(c);
                if !over {
                    match value.checked_mul(10) {
                        Some(v10) => match v10.checked_add(d) {
                            Some(v) => {
                                value = v;
                            },
                            None => {
                                over = true;
                            },
                        },
                        None => {
                            proof {
                                lemma_quantity_value_nonneg(s, start, self.pos as int);
                            }
                            over = true;
                        },
                    }
                }
            }
            self.pos = self.pos + 1;
        }
        proof {
            // the run is non-empty: the first character is a digit
            assert(spec_scan_quantity(s, start) == spec_scan_quantity(s, start + 1));
            lemma_scan_quantity_bounds(s, start + 1);
        }
        (value, over)
    }

    /// Reads one unit spelling: the maximal run of letters at the cursor.
    fn read_unit(&mut self) -> (unit: Vec<char>)
        requires
            old(self).pos <= old(self).chars@.len(),
        ensures
            final(self).chars@ == old(self).chars@,
            final(self).pos == spec_scan_letters(old(self).chars@, old(self).pos as int),
            old(self).pos <= final(self).pos <= final(self).chars@.len(),
            unit@ == old(self).chars@.subrange(old(self).pos as int, final(self).pos as int),
    {
        let ghost s = self.chars@;
        let ghost start = self.pos as int;
        let mut unit: Vec<char> = Vec::new();
        while self.pos < self.chars.len()
            invariant
                self.chars@ == s,
                0 <= start <= self.pos <= s.len(),
                spec_scan_letters(s, start) == spec_scan_letters(s, self.pos as int),
                unit@ == s.subrange(start, self.pos as int),
            ensures
                self.chars@ == s,
                0 <= start <= self.pos <= s.len(),
                spec_scan_letters(s, start) == spec_scan_letters(s, self.pos as int),
                self.pos == s.len() || !spec_is_letter(s[self.pos as int]),
                unit@ == s.subrange(start, self.pos as int),
            decreases s.len() - self.pos,
        {
            let c = self.chars[self.pos];
            if !is_letter_char(c) {
                break ;
            }
            unit.push(c);
            proof {
                assert(unit@ =~= s.subrange(start, self.pos as int + 1));
            }
            self.pos = self.pos + 1;
        }
        unit
    }
}

/// The scan from position `i` on is the suffix that `done` leaves open:
/// whatever it yields, prepending `done` gives the whole scan's answer.
spec fn spec_tokens_continuation(s: Seq<char>, done: Seq<(int, int)>, i: int) -> bool {
    match spec_tokens_from(s, i) {
        Ok(rest) => spec_tokens_from(s, 0) == Ok::<Seq<(int, int)>, ParseError>(done + rest),
        Err(e) => spec_tokens_from(s, 0) == Err::<Seq<(int, int)>, ParseError>(e),
    }
}

/// Parses a duration expression into milliseconds.
///
/// The result is exactly what [`spec_parse_time`] prescribes: `Ok` with
/// the sum over all terms of `quantity * unit_millis` whenever the text
/// fits the grammar and the sum fits in a `u128`; `Empty` for blank
/// input; `Syntax` with the offending position for anything ill-formed;
/// `Overflow` for a well-formed total beyond `u128`.  No partial result
/// is ever returned.
pub fn parse_time(unparsed_input: &str) -> (r: Result<u128, ParseError>)
    ensures
        spec_result_view(r) == spec_parse_time(unparsed_input@),
{
    let ghost s = unparsed_input@;
    let mut p = TimeParser::new(unparsed_input);
    p.skip_separators();
    proof {
        lemma_skip_separators_idempotent(s, 0);
    }
    if p.at_end() {
        return Err(ParseError::Empty);
    }
    let ghost mut terms: Seq<(int, int)> = Seq::empty();
    let mut total: u128 = 0;
    let mut over: bool = false;
    proof {
        lemma_tokens_from_at_skip(s, 0);
        match spec_tokens_from(s, p.pos as int) {
            Ok(rest) => {
                assert(Seq::<(int, int)>::empty() + rest =~= rest);
            },
            Err(e) => {},
        }
    }
    while p.pos < p.chars.len()
        invariant
            s == unparsed_input@,
            p.chars@ == s,
            p.pos <= s.len(),
            spec_skip_separators(s, p.pos as int) == p.pos as int,
            spec_skip_separators(s, 0) < s.len(),
            spec_tokens_continuation(s, terms, p.pos as int),
            !over ==> total == spec_terms_total(terms),
            over ==> spec_terms_total(terms) > u128::MAX,
            forall|k: int|
                0 <= k < terms.len() ==> (#[trigger] terms[k]).0 >= 0 && terms[k].1 >= 1,
        decreases s.len() - p.pos,
    {
        let ghost pos0 = p.pos as int;
        let c = p.chars[p.pos];
        if !text::is_digit_char(c) {
            let at = p.pos;
            proof {
                assert(spec_tokens_from(s, pos0) == Err::<Seq<(int, int)>, ParseError>(
                    ParseError::Syntax { at: pos0 as usize },
                ));
            }
            return Err(ParseError::Syntax { at });
        }
        let (quantity, q_over) = p.read_quantity();
        let ghost q_end = p.pos as int;
        let ghost qval = spec_quantity_value(s, pos0, q_end);
        p.skip_separators();
        let ghost u_start = p.pos as int;
        let at_unit = p.pos;
        let unit = p.read_unit();
        let ghost u_end = p.pos as int;
        if unit.len() == 0 {
            proof {
                assert(spec_tokens_from(s, pos0) == Err::<Seq<(int, int)>, ParseError>(
                    ParseError::Syntax { at: u_start as usize },
                ));
            }
            return Err(ParseError::Syntax { at: at_unit });
        }
        let unit_millis = match lexicon::resolve_chars(&unit) {
            None => {
                proof {
                    assert(unit@ == s.subrange(u_start, u_end));
                    assert(spec_tokens_from(s, pos0) == Err::<Seq<(int, int)>, ParseError>(
                        ParseError::Syntax { at: u_start as usize },
                    ));
                }
                return Err(ParseError::Syntax { at: at_unit });
            },
            Some(m) => m,
        };
        proof {
            lexicon::lemma_resolve_bounds(s.subrange(u_start, u_end));
            lemma_quantity_value_nonneg(s, pos0, q_end);
            assert(spec_tokens_from(s, pos0) == (match spec_tokens_from(s, u_end) {
                Ok(rest) => Ok::<Seq<(int, int)>, ParseError>(
                    seq![(qval, unit_millis as int)] + rest,
                ),
                Err(e) => Err::<Seq<(int, int)>, ParseError>(e),
            }));
        }
        let ghost term = (qval, unit_millis as int);
        if !over {
            if q_over {
                proof {
                    vstd::arithmetic::mul::lemma_mul_inequality(1, unit_millis as int, qval);
                }
                over = true;
            } else {
                match quantity.checked_mul(unit_millis) {
                    None => {
                        over = true;
                    },
                    Some(prod) => match total.checked_add(prod) {
                        None => {
                            over = true;
                        },
                        Some(t2) => {
                            total = t2;
                        },
                    },
                }
            }
        } else {
            proof {
                vstd::arithmetic::mul::lemma_mul_nonnegative(qval, unit_millis as int);
            }
        }
        proof {
            lemma_terms_total_push(terms, term);
            let done = terms;
            terms = terms.push(term);
            match spec_tokens_from(s, u_end) {
                Ok(rest) => {
                    assert(done + (seq![term] + rest) =~= terms + rest);
                },
                Err(e) => {},
            }
        }
        p.skip_separators();
        proof {
            lemma_tokens_from_at_skip(s, u_end);
            lemma_skip_separators_idempotent(s, u_end);
        }
    }
    proof {
        assert(spec_tokens_from(s, p.pos as int) == Ok::<Seq<(int, int)>, ParseError>(
            Seq::empty(),
        ));
        assert(terms + Seq::<(int, int)>::empty() =~= terms);
    }
    if over {
        Err(ParseError::Overflow)
    } else {
        Ok(total)
    }
}

proof fn lemma_terms_total_remove(terms: Seq<(int, int)>, k: int)
    requires
        0 <= k < terms.len(),
    ensures
        spec_terms_total(terms) == spec_terms_total(terms.remove(k)) + terms[k].0 * terms[k].1,
    decreases terms.len(),
{
    if k == 0 {
        assert(terms.remove(0) =~= terms.drop_first());
    } else {
        lemma_terms_total_remove(terms.drop_first(), k - 1);
        assert(terms.remove(k)[0] == terms[0]);
        assert(terms.remove(k).drop_first() =~= terms.drop_first().remove(k - 1));
        assert(terms.drop_first()[k - 1] == terms[k]);
    }
}

proof fn lemma_terms_total_multiset(a: Seq<(int, int)>, b: Seq<(int, int)>)
    requires
        a.to_multiset() == b.to_multiset(),
    ensures
        spec_terms_total(a) == spec_terms_total(b),
    decreases a.len(),
{
    broadcast use vstd::seq_lib::group_to_multiset_ensures;

    if a.len() == 0 {
        vstd::seq_lib::to_multiset_len(a);
        vstd::seq_lib::to_multiset_len(b);
        assert(b.len() == 0);
    } else {
        let x = a[0];
        assert(a.contains(x));
        assert(b.to_multiset().count(x) > 0);
        assert(b.contains(x));
        let k = choose|k: int| 0 <= k < b.len() && b[k] == x;
        lemma_terms_total_remove(a, 0);
        lemma_terms_total_remove(b, k);
        assert(a.remove(0).to_multiset() == b.remove(k).to_multiset());
        lemma_terms_total_multiset(a.remove(0), b.remove(k));
    }
}

/// Separators only delimit: the parse result is a function of the token
/// list alone, so two expressions that tokenize alike — however their
/// whitespace and commas are arranged — parse alike.
pub proof fn lemma_separator_insensitive(s1: Seq<char>, s2: Seq<char>)
    requires
        spec_tokens(s1) == spec_tokens(s2),
    ensures
        spec_parse_time(s1) == spec_parse_time(s2),
{
}

/// Repeated units are additive: two terms with the same unit contribute
/// to the total exactly what the single term with their summed quantity
/// does, wherever they stand among the other terms.
pub proof fn lemma_repeated_units_additive(q1: int, q2: int, m: int, rest: Seq<(int, int)>)
    ensures
        spec_terms_total(seq![(q1, m), (q2, m)] + rest) == spec_terms_total(
            seq![(q1 + q2, m)] + rest,
        ),
{
    let two = seq![(q1, m), (q2, m)] + rest;
    let one = seq![(q1 + q2, m)] + rest;
    assert(two[0] == (q1, m));
    assert(two.drop_first() =~= seq![(q2, m)] + rest);
    assert((seq![(q2, m)] + rest)[0] == (q2, m));
    assert((seq![(q2, m)] + rest).drop_first() =~= rest);
    assert(one[0] == (q1 + q2, m));
    assert(one.drop_first() =~= rest);
    assert(spec_terms_total(two) == q1 * m + spec_terms_total(seq![(q2, m)] + rest));
    assert(spec_terms_total(seq![(q2, m)] + rest) == q2 * m + spec_terms_total(rest));
    assert(spec_terms_total(one) == (q1 + q2) * m + spec_terms_total(rest));
    vstd::arithmetic::mul::lemma_mul_is_distributive_add_other_way(m, q1, q2);
}

/// Term order is irrelevant: two duration expressions whose token lists
/// hold the same (quantity, unit) terms, in whatever order, parse to the
/// same result.  With the same multiset of terms the additive totals
/// agree, so the two expressions either both overflow or both yield the
/// same millisecond count.
pub proof fn lemma_parse_order_insensitive(
    s1: Seq<char>,
    s2: Seq<char>,
    t1: Seq<(int, int)>,
    t2: Seq<(int, int)>,
)
    requires
        spec_tokens(s1) == Ok::<Seq<(int, int)>, ParseError>(t1),
        spec_tokens(s2) == Ok::<Seq<(int, int)>, ParseError>(t2),
        t1.to_multiset() == t2.to_multiset(),
    ensures
        spec_parse_time(s1) == spec_parse_time(s2),
{
    lemma_terms_total_multiset(t1, t2);
}

} // verus!
