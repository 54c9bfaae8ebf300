//! The snapshot text format.
//!
//! A registry snapshot is a single piece of text holding every registered
//! project: its name, its test command words, and its content digest if one
//! was committed. Every variable-length field is length-prefixed
//! (`<decimal length> ':' <payload>`, lists as `<decimal count> ';' <items>`),
//! so no escaping is needed and parsing is unambiguous. Parsing a serialized
//! snapshot returns exactly the projects that were serialized.

use vstd::arithmetic::div_mod::lemma_fundamental_div_mod;
use vstd::prelude::*;
use vstd::string::*;

use crate::project::ProjectView;
use crate::project::TestProject;

verus! {

/// The character for one decimal digit.
pub open spec fn digit_char(d: nat) -> char {
    if d == 0 {
        '0'
    } else if d == 1 {
        '1'
    } else if d == 2 {
        '2'
    } else if d == 3 {
        '3'
    } else if d == 4 {
        '4'
    } else if d == 5 {
        '5'
    } else if d == 6 {
        '6'
    } else if d == 7 {
        '7'
    } else if d == 8 {
        '8'
    } else {
        '9'
    }
}

/// Whether a character is a decimal digit.
pub open spec fn is_digit(c: char) -> bool {
    48 <= c as u32 <= 57
}

/// The numeric value of a digit character.
pub open spec fn digit_val(c: char) -> nat {
    (c as u32 - 48) as nat
}

/// The usual decimal rendering of a number, most significant digit first,
/// with no leading zeros (`0` renders as `"0"`).
pub open spec fn digits_of(n: nat) -> Seq<char>
    decreases n,
{
    if n < 10 {
        seq![digit_char(n)]
    } else {
        digits_of(n / 10) + seq![digit_char(n % 10)]
    }
}

/// Greedily consumes leading digit characters, folding them into `acc`;
/// returns the folded value and the unconsumed remainder.
pub open spec fn consume_digits(s: Seq<char>, acc: nat) -> (nat, Seq<char>)
    decreases s.len(),
{
    if s.len() == 0 || !is_digit(s[0]) {
        (acc, s)
    } else {
        consume_digits(s.drop_first(), acc * 10 + digit_val(s[0]))
    }
}

/// Parses a decimal number: at least one leading digit, consumed greedily.
pub open spec fn parse_nat(s: Seq<char>) -> Option<(nat, Seq<char>)> {
    if s.len() == 0 || !is_digit(s[0]) {
        None
    } else {
        Some(consume_digits(s, 0))
    }
}

proof fn lemma_digit_char_val(d: nat)
    requires
        d < 10,
    ensures
        is_digit(digit_char(d)),
        digit_val(digit_char(d)) == d,
{
}

proof fn lemma_digits_of_first_digit(n: nat)
    ensures
        digits_of(n).len() >= 1,
        is_digit(digits_of(n)[0]),
        forall|i: int| 0 <= i < digits_of(n).len() ==> is_digit(#[trigger] digits_of(n)[i]),
    decreases n,
{
    if n < 10 {
        lemma_digit_char_val(n);
    } else {
        lemma_digits_of_first_digit(n / 10);
        lemma_digit_char_val(n % 10);
        assert forall|i: int| 0 <= i < digits_of(n).len() implies is_digit(
            #[trigger] digits_of(n)[i],
        ) by {
            if i < digits_of(n / 10).len() {
                assert(digits_of(n)[i] == digits_of(n / 10)[i]);
            } else {
                assert(digits_of(n)[i] == digit_char(n % 10));
            }
        }
    }
}

/// Consuming the rendering of `m` folds exactly `m` into the accumulator and
/// leaves `rest` untouched.
proof fn lemma_consume_digits_of(m: nat, rest: Seq<char>, acc: nat)
    ensures
        consume_digits(digits_of(m) + rest, acc) == consume_digits(
            rest,
            acc * pow10(digits_of(m).len()) + m,
        ),
    decreases m,
{
    if m < 10 {
        let s = digits_of(m) + rest;
        lemma_digit_char_val(m);
        assert(s[0] == digit_char(m));
        assert(s.drop_first() =~= rest);
        assert(pow10(0) == 1);
        assert(pow10(1) == 10);
    } else {
        let d = m % 10;
        let hi = m / 10;
        lemma_digit_char_val(d);
        let tail = seq![digit_char(d)] + rest;
        assert(digits_of(m) + rest =~= digits_of(hi) + tail);
        lemma_consume_digits_of(hi, tail, acc);
        let acc1 = acc * pow10(digits_of(hi).len()) + hi;
        assert(tail[0] == digit_char(d));
        assert(tail.drop_first() =~= rest);
        assert(consume_digits(tail, acc1) == consume_digits(rest, acc1 * 10 + d));
        assert(digits_of(m).len() == digits_of(hi).len() + 1);
        let p = pow10(digits_of(hi).len());
        assert(pow10(digits_of(hi).len() + 1) == 10 * p);
        assert((acc * p + hi) * 10 + d == acc * (10 * p) + (hi * 10 + d)) by (nonlinear_arith);
        lemma_fundamental_div_mod(m as int, 10);
        assert(acc1 * 10 + d == acc * pow10(digits_of(m).len()) + m);
    }
}

/// Ten to a power.
pub open spec fn pow10(k: nat) -> nat
    decreases k,
{
    if k == 0 {
        1
    } else {
        10 * pow10((k - 1) as nat)
    }
}

/// One decimal digit as text.
fn digit_str(d: u64) -> (r: &'static str)
    requires
        d < 10,
    ensures
        r@ == seq![digit_char(d as nat)],
{
    if d == 0 {
        proof {
            reveal_strlit("0");
            assert("0"@ =~= seq![digit_char(0)]);
        }
        "0"
    } else if d == 1 {
        proof {
            reveal_strlit("1");
            assert("1"@ =~= seq![digit_char(1)]);
        }
        "1"
    } else if d == 2 {
        proof {
            reveal_strlit("2");
            assert("2"@ =~= seq![digit_char(2)]);
        }
        "2"
    } else if d == 3 {
        proof {
            reveal_strlit("3");
            assert("3"@ =~= seq![digit_char(3)]);
        }
        "3"
    } else if d == 4 {
        proof {
            reveal_strlit("4");
            assert("4"@ =~= seq![digit_char(4)]);
        }
        "4"
    } else if d == 5 {
        proof {
            reveal_strlit("5");
            assert("5"@ =~= seq![digit_char(5)]);
        }
        "5"
    } else if d == 6 {
        proof {
            reveal_strlit("6");
            assert("6"@ =~= seq![digit_char(6)]);
        }
        "6"
    } else if d == 7 {
        proof {
            reveal_strlit("7");
            assert("7"@ =~= seq![digit_char(7)]);
        }
        "7"
    } else if d == 8 {
        proof {
            reveal_strlit("8");
            assert("8"@ =~= seq![digit_char(8)]);
        }
        "8"
    } else {
        proof {
            reveal_strlit("9");
            assert("9"@ =~= seq![digit_char(9)]);
        }
        "9"
    }
}

/// Renders a number in decimal, exactly as `digits_of` describes.
pub fn u64_to_string(n: u64) -> (r: String)
    ensures
        r@ == digits_of(n as nat),
    decreases n,
{
    if n < 10 {
        String::from_str(digit_str(n))
    } else {
        let mut out = u64_to_string(n / 10);
        out.append(digit_str(n % 10));
        proof {
            assert(out@ =~= digits_of(n as nat));
        }
        out
    }
}

/// Parsing starts over the rendering of `n`: it recovers exactly `n`,
/// provided whatever follows does not begin with a digit.
proof fn lemma_parse_nat_of_digits(n: nat, rest: Seq<char>)
    requires
        rest.len() == 0 || !is_digit(rest[0]),
    ensures
        parse_nat(digits_of(n) + rest) == Some((n, rest)),
{
    lemma_digits_of_first_digit(n);
    assert((digits_of(n) + rest)[0] == digits_of(n)[0]);
    lemma_consume_digits_of(n, rest, 0);
}

/// A length-prefixed string field: `<decimal length> ':' <payload>`.
pub open spec fn ser_string(s: Seq<char>) -> Seq<char> {
    digits_of(s.len()) + ":"@ + s
}

/// A list header: `<decimal count> ';'`.
pub open spec fn ser_count(n: nat) -> Seq<char> {
    digits_of(n) + ";"@
}

/// Parses a length-prefixed string field.
pub open spec fn parse_string(s: Seq<char>) -> Option<(Seq<char>, Seq<char>)> {
    match parse_nat(s) {
        None => None,
        Some((n, r)) => if r.len() == 0 || r[0] != ':' {
            None
        } else {
            let r2 = r.drop_first();
            if n > r2.len() {
                None
            } else {
                Some((r2.take(n as int), r2.skip(n as int)))
            }
        },
    }
}

/// Parses a list header, yielding the item count.
pub open spec fn parse_count(s: Seq<char>) -> Option<(nat, Seq<char>)> {
    match parse_nat(s) {
        None => None,
        Some((n, r)) => if r.len() == 0 || r[0] != ';' {
            None
        } else {
            Some((n, r.drop_first()))
        },
    }
}

/// Folding digits never decreases the accumulator.
proof fn lemma_consume_digits_ge_acc(s: Seq<char>, acc: nat)
    ensures
        consume_digits(s, acc).0 >= acc,
    decreases s.len(),
{
    if s.len() == 0 || !is_digit(s[0]) {
    } else {
        lemma_consume_digits_ge_acc(s.drop_first(), acc * 10 + digit_val(s[0]));
    }
}

/// A parse of a number consumes at least the one leading digit.
proof fn lemma_parse_nat_shrinks(s: Seq<char>)
    ensures
        parse_nat(s) matches Some((n, r)) ==> r.len() < s.len(),
{
    if s.len() > 0 && is_digit(s[0]) {
        lemma_consume_digits_shrinks(s, 0);
    }
}

proof fn lemma_consume_digits_shrinks(s: Seq<char>, acc: nat)
    ensures
        consume_digits(s, acc).1.len() <= s.len(),
        (s.len() > 0 && is_digit(s[0])) ==> consume_digits(s, acc).1.len() < s.len(),
    decreases s.len(),
{
    if s.len() == 0 || !is_digit(s[0]) {
    } else {
        lemma_consume_digits_shrinks(s.drop_first(), acc * 10 + digit_val(s[0]));
    }
}

/// A parsed number is bounded by what the digits can have folded out of the
/// text that was consumed; in particular a successful string parse's length
/// value never exceeds the remaining text.
proof fn lemma_parse_string_shrinks(s: Seq<char>)
    ensures
        parse_string(s) matches Some((x, r)) ==> r.len() + 2 <= s.len() && x.len() < s.len(),
{
    if parse_nat(s) is Some {
        let (n, r1) = parse_nat(s)->Some_0;
        lemma_parse_nat_shrinks(s);
        if r1.len() > 0 && r1[0] == ':' {
            let r2 = r1.drop_first();
            if n <= r2.len() {
                assert(r2.skip(n as int).len() == r2.len() - n);
            }
        }
    }
}

/// A successful count parse consumes at least two characters.
proof fn lemma_parse_count_shrinks(s: Seq<char>)
    ensures
        parse_count(s) matches Some((n, r)) ==> r.len() + 2 <= s.len(),
{
    lemma_parse_nat_shrinks(s);
}

/// Parsing a serialized string field recovers exactly the string.
proof fn lemma_parse_string_of(x: Seq<char>, rest: Seq<char>)
    ensures
        parse_string(ser_string(x) + rest) == Some((x, rest)),
{
    reveal_strlit(":");
    let tail = ":"@ + x + rest;
    assert(ser_string(x) + rest =~= digits_of(x.len()) + tail);
    assert(tail[0] == ':');
    assert(!is_digit(':'));
    lemma_parse_nat_of_digits(x.len(), tail);
    let r2 = tail.drop_first();
    assert(r2 =~= x + rest);
    assert(r2.take(x.len() as int) =~= x);
    assert(r2.skip(x.len() as int) =~= rest);
}

/// Parsing a serialized list header recovers exactly the count.
proof fn lemma_parse_count_of(n: nat, rest: Seq<char>)
    ensures
        parse_count(ser_count(n) + rest) == Some((n, rest)),
{
    reveal_strlit(";");
    let tail = ";"@ + rest;
    assert(ser_count(n) + rest =~= digits_of(n) + tail);
    assert(tail[0] == ';');
    assert(!is_digit(';'));
    lemma_parse_nat_of_digits(n, tail);
    assert(tail.drop_first() =~= rest);
}

/// Concatenated string fields.
pub open spec fn ser_strings(items: Seq<Seq<char>>) -> Seq<char>
    decreases items.len(),
{
    if items.len() == 0 {
        Seq::empty()
    } else {
        ser_string(items[0]) + ser_strings(items.drop_first())
    }
}

/// A list of strings: count header, then the fields.
pub open spec fn ser_string_list(items: Seq<Seq<char>>) -> Seq<char> {
    ser_count(items.len()) + ser_strings(items)
}

/// Concatenated command word lists.
pub open spec fn ser_word_lists(ts: Seq<Seq<Seq<char>>>) -> Seq<char>
    decreases ts.len(),
{
    if ts.len() == 0 {
        Seq::empty()
    } else {
        ser_string_list(ts[0]) + ser_word_lists(ts.drop_first())
    }
}

/// A project's test commands: count header, then one word list per command.
pub open spec fn ser_tests(ts: Seq<Seq<Seq<char>>>) -> Seq<char> {
    ser_count(ts.len()) + ser_word_lists(ts)
}

/// A committed digest, or its absence.
pub open spec fn ser_digest(d: Option<Seq<char>>) -> Seq<char> {
    match d {
        None => "N"@,
        Some(x) => "S"@ + ser_string(x),
    }
}

/// One serialized project record.
pub open spec fn ser_project(p: ProjectView) -> Seq<char> {
    ser_string(p.name) + ser_tests(p.tests) + ser_digest(p.digest)
}

/// Concatenated project records.
pub open spec fn ser_projects(ps: Seq<ProjectView>) -> Seq<char>
    decreases ps.len(),
{
    if ps.len() == 0 {
        Seq::empty()
    } else {
        ser_project(ps[0]) + ser_projects(ps.drop_first())
    }
}

/// A whole registry snapshot: count header, then the project records.
pub open spec fn ser_registry(ps: Seq<ProjectView>) -> Seq<char> {
    ser_count(ps.len()) + ser_projects(ps)
}

/// Parses exactly `count` string fields.
pub open spec fn parse_strings(s: Seq<char>, count: nat) -> Option<(Seq<Seq<char>>, Seq<char>)>
    decreases count,
{
    if count == 0 {
        Some((Seq::empty(), s))
    } else {
        match parse_string(s) {
            None => None,
            Some((x, r)) => match parse_strings(r, (count - 1) as nat) {
                None => None,
                Some((xs, r2)) => Some((seq![x] + xs, r2)),
            },
        }
    }
}

/// Parses a counted list of string fields.
pub open spec fn parse_string_list(s: Seq<char>) -> Option<(Seq<Seq<char>>, Seq<char>)> {
    match parse_count(s) {
        None => None,
        Some((n, r)) => parse_strings(r, n),
    }
}

/// Parses exactly `count` word lists.
pub open spec fn parse_word_lists(s: Seq<char>, count: nat) -> Option<
    (Seq<Seq<Seq<char>>>, Seq<char>),
>
    decreases count,
{
    if count == 0 {
        Some((Seq::empty(), s))
    } else {
        match parse_string_list(s) {
            None => None,
            Some((x, r)) => match parse_word_lists(r, (count - 1) as nat) {
                None => None,
                Some((xs, r2)) => Some((seq![x] + xs, r2)),
            },
        }
    }
}

/// Parses a project's test commands.
pub open spec fn parse_tests(s: Seq<char>) -> Option<(Seq<Seq<Seq<char>>>, Seq<char>)> {
    match parse_count(s) {
        None => None,
        Some((n, r)) => parse_word_lists(r, n),
    }
}

/// Parses a committed digest or its absence.
pub open spec fn parse_digest(s: Seq<char>) -> Option<(Option<Seq<char>>, Seq<char>)> {
    if s.len() == 0 {
        None
    } else if s[0] == 'N' {
        Some((None, s.drop_first()))
    } else if s[0] == 'S' {
        match parse_string(s.drop_first()) {
            None => None,
            Some((x, r)) => Some((Some(x), r)),
        }
    } else {
        None
    }
}

/// Parses one project record.
pub open spec fn parse_project(s: Seq<char>) -> Option<(ProjectView, Seq<char>)> {
    match parse_string(s) {
        None => None,
        Some((name, r1)) => match parse_tests(r1) {
            None => None,
            Some((tests, r2)) => match parse_digest(r2) {
                None => None,
                Some((d, r3)) => Some((ProjectView { name, tests, digest: d }, r3)),
            },
        },
    }
}

/// Parses exactly `count` project records.
pub open spec fn parse_projects(s: Seq<char>, count: nat) -> Option<(Seq<ProjectView>, Seq<char>)>
    decreases count,
{
    if count == 0 {
        Some((Seq::empty(), s))
    } else {
        match parse_project(s) {
            None => None,
            Some((p, r)) => match parse_projects(r, (count - 1) as nat) {
                None => None,
                Some((ps, r2)) => Some((seq![p] + ps, r2)),
            },
        }
    }
}

/// Parses a whole registry snapshot.
pub open spec fn parse_registry(s: Seq<char>) -> Option<(Seq<ProjectView>, Seq<char>)> {
    match parse_count(s) {
        None => None,
        Some((n, r)) => parse_projects(r, n),
    }
}

proof fn lemma_parse_strings_of(items: Seq<Seq<char>>, rest: Seq<char>)
    ensures
        parse_strings(ser_strings(items) + rest, items.len()) == Some((items, rest)),
    decreases items.len(),
{
    if items.len() == 0 {
        assert(ser_strings(items) + rest =~= rest);
        assert(Seq::<Seq<char>>::empty() =~= items);
    } else {
        let tail = ser_strings(items.drop_first()) + rest;
        assert(ser_strings(items) + rest =~= ser_string(items[0]) + tail);
        lemma_parse_string_of(items[0], tail);
        lemma_parse_strings_of(items.drop_first(), rest);
        assert(seq![items[0]] + items.drop_first() =~= items);
    }
}

proof fn lemma_parse_string_list_of(items: Seq<Seq<char>>, rest: Seq<char>)
    ensures
        parse_string_list(ser_string_list(items) + rest) == Some((items, rest)),
{
    let tail = ser_strings(items) + rest;
    assert(ser_string_list(items) + rest =~= ser_count(items.len()) + tail);
    lemma_parse_count_of(items.len(), tail);
    lemma_parse_strings_of(items, rest);
}

proof fn lemma_parse_word_lists_of(ts: Seq<Seq<Seq<char>>>, rest: Seq<char>)
    ensures
        parse_word_lists(ser_word_lists(ts) + rest, ts.len()) == Some((ts, rest)),
    decreases ts.len(),
{
    if ts.len() == 0 {
        assert(ser_word_lists(ts) + rest =~= rest);
        assert(Seq::<Seq<Seq<char>>>::empty() =~= ts);
    } else {
        let tail = ser_word_lists(ts.drop_first()) + rest;
        assert(ser_word_lists(ts) + rest =~= ser_string_list(ts[0]) + tail);
        lemma_parse_string_list_of(ts[0], tail);
        lemma_parse_word_lists_of(ts.drop_first(), rest);
        assert(seq![ts[0]] + ts.drop_first() =~= ts);
    }
}

proof fn lemma_parse_tests_of(ts: Seq<Seq<Seq<char>>>, rest: Seq<char>)
    ensures
        parse_tests(ser_tests(ts) + rest) == Some((ts, rest)),
{
    let tail = ser_word_lists(ts) + rest;
    assert(ser_tests(ts) + rest =~= ser_count(ts.len()) + tail);
    lemma_parse_count_of(ts.len(), tail);
    lemma_parse_word_lists_of(ts, rest);
}

proof fn lemma_parse_digest_of(d: Option<Seq<char>>, rest: Seq<char>)
    ensures
        parse_digest(ser_digest(d) + rest) == Some((d, rest)),
{
    reveal_strlit("N");
    reveal_strlit("S");
    match d {
        None => {
            let s = ser_digest(d) + rest;
            assert(s[0] == 'N');
            assert(s.drop_first() =~= rest);
        },
        Some(x) => {
            let s = ser_digest(d) + rest;
            assert(s[0] == 'S');
            assert(s.drop_first() =~= ser_string(x) + rest);
            lemma_parse_string_of(x, rest);
        },
    }
}

proof fn lemma_parse_project_of(p: ProjectView, rest: Seq<char>)
    ensures
        parse_project(ser_project(p) + rest) == Some((p, rest)),
{
    let tail2 = ser_digest(p.digest) + rest;
    let tail1 = ser_tests(p.tests) + tail2;
    assert(ser_project(p) + rest =~= ser_string(p.name) + tail1);
    lemma_parse_string_of(p.name, tail1);
    lemma_parse_tests_of(p.tests, tail2);
    lemma_parse_digest_of(p.digest, rest);
}

proof fn lemma_parse_projects_of(ps: Seq<ProjectView>, rest: Seq<char>)
    ensures
        parse_projects(ser_projects(ps) + rest, ps.len()) == Some((ps, rest)),
    decreases ps.len(),
{
    if ps.len() == 0 {
        assert(ser_projects(ps) + rest =~= rest);
        assert(Seq::<ProjectView>::empty() =~= ps);
    } else {
        let tail = ser_projects(ps.drop_first()) + rest;
        assert(ser_projects(ps) + rest =~= ser_project(ps[0]) + tail);
        lemma_parse_project_of(ps[0], tail);
        lemma_parse_projects_of(ps.drop_first(), rest);
        assert(seq![ps[0]] + ps.drop_first() =~= ps);
    }
}

proof fn lemma_parse_strings_shrinks(s: Seq<char>, count: nat)
    ensures
        parse_strings(s, count) matches Some((xs, r)) ==> r.len() <= s.len(),
    decreases count,
{
    if count > 0 {
        lemma_parse_string_shrinks(s);
        if parse_string(s) is Some {
            let (x, r) = parse_string(s)->Some_0;
            lemma_parse_strings_shrinks(r, (count - 1) as nat);
        }
    }
}

/// More items were announced than characters remain: the list cannot parse.
proof fn lemma_parse_strings_overflow(s: Seq<char>, count: nat)
    requires
        count > s.len(),
    ensures
        parse_strings(s, count) is None,
    decreases count,
{
    lemma_parse_string_shrinks(s);
    if parse_string(s) is Some {
        let (x, r) = parse_string(s)->Some_0;
        lemma_parse_strings_overflow(r, (count - 1) as nat);
    }
}

proof fn lemma_parse_string_list_shrinks(s: Seq<char>)
    ensures
        parse_string_list(s) matches Some((xs, r)) ==> r.len() + 2 <= s.len(),
{
    lemma_parse_count_shrinks(s);
    if parse_count(s) is Some {
        let (n, r1) = parse_count(s)->Some_0;
        lemma_parse_strings_shrinks(r1, n);
    }
}

proof fn lemma_parse_word_lists_shrinks(s: Seq<char>, count: nat)
    ensures
        parse_word_lists(s, count) matches Some((xs, r)) ==> r.len() <= s.len(),
    decreases count,
{
    if count > 0 {
        lemma_parse_string_list_shrinks(s);
        if parse_string_list(s) is Some {
            let (x, r) = parse_string_list(s)->Some_0;
            lemma_parse_word_lists_shrinks(r, (count - 1) as nat);
        }
    }
}

/// More word lists were announced than characters remain: cannot parse.
proof fn lemma_parse_word_lists_overflow(s: Seq<char>, count: nat)
    requires
        count > s.len(),
    ensures
        parse_word_lists(s, count) is None,
    decreases count,
{
    lemma_parse_string_list_shrinks(s);
    if parse_string_list(s) is Some {
        let (x, r) = parse_string_list(s)->Some_0;
        lemma_parse_word_lists_overflow(r, (count - 1) as nat);
    }
}

proof fn lemma_parse_tests_shrinks(s: Seq<char>)
    ensures
        parse_tests(s) matches Some((ts, r)) ==> r.len() + 2 <= s.len(),
{
    lemma_parse_count_shrinks(s);
    if parse_count(s) is Some {
        let (n, r1) = parse_count(s)->Some_0;
        lemma_parse_word_lists_shrinks(r1, n);
    }
}

proof fn lemma_parse_digest_shrinks(s: Seq<char>)
    ensures
        parse_digest(s) matches Some((d, r)) ==> r.len() + 1 <= s.len(),
{
    if s.len() > 0 && s[0] == 'S' {
        lemma_parse_string_shrinks(s.drop_first());
    }
}

proof fn lemma_parse_project_shrinks(s: Seq<char>)
    ensures
        parse_project(s) matches Some((p, r)) ==> r.len() + 2 <= s.len(),
{
    lemma_parse_string_shrinks(s);
    if parse_string(s) is Some {
        let (name, r1) = parse_string(s)->Some_0;
        lemma_parse_tests_shrinks(r1);
        if parse_tests(r1) is Some {
            let (ts, r2) = parse_tests(r1)->Some_0;
            lemma_parse_digest_shrinks(r2);
        }
    }
}

/// More project records were announced than characters remain: cannot parse.
proof fn lemma_parse_projects_overflow(s: Seq<char>, count: nat)
    requires
        count > s.len(),
    ensures
        parse_projects(s, count) is None,
    decreases count,
{
    lemma_parse_project_shrinks(s);
    if parse_project(s) is Some {
        let (p, r) = parse_project(s)->Some_0;
        lemma_parse_projects_overflow(r, (count - 1) as nat);
    }
}

/// Round trip: parsing a serialized registry snapshot reconstructs exactly
/// the projects that were serialized -- same names, same test lists, same
/// content state -- with nothing left over.
pub proof fn lemma_snapshot_round_trip(ps: Seq<ProjectView>)
    ensures
        parse_registry(ser_registry(ps)) == Some((ps, Seq::<char>::empty())),
{
    let empty = Seq::<char>::empty();
    assert(ser_registry(ps) =~= ser_count(ps.len()) + (ser_projects(ps) + empty));
    lemma_parse_count_of(ps.len(), ser_projects(ps) + empty);
    lemma_parse_projects_of(ps, empty);
}

/// Relies on `String::from_iter` over chars: collects characters into an
/// owned string whose view is exactly the given character sequence.
#[verifier::external_body]
fn string_from_chars(v: &Vec<char>) -> (s: String)
    ensures
        s@ == v@,
{
    v.iter().collect()
}

/// Decides `is_digit` executably.
fn is_digit_exec(c: char) -> (r: bool)
    ensures
        r == is_digit(c),
{
    let u = c as u32;
    48 <= u && u <= 57
}

/// Folds leading digits into `acc`, stopping at the first non-digit; fails
/// only when the folded value would not fit in a machine word.
fn consume_digits_exec(v: &Vec<char>, pos: usize, acc: u64) -> (r: Option<(u64, usize)>)
    requires
        pos <= v@.len(),
    ensures
        match r {
            Some((n, p2)) => pos <= p2 <= v@.len() && consume_digits(v@.skip(pos as int), acc as nat)
                == (n as nat, v@.skip(p2 as int)),
            None => consume_digits(v@.skip(pos as int), acc as nat).0 > u64::MAX,
        },
    decreases v@.len() - pos,
{
    if pos == v.len() {
        proof {
            assert(v@.skip(pos as int) =~= Seq::<char>::empty());
        }
        return Some((acc, pos));
    }
    let c = v[pos];
    proof {
        assert(v@.skip(pos as int)[0] == c);
    }
    if !is_digit_exec(c) {
        return Some((acc, pos));
    }
    let d = (c as u32 - 48) as u64;
    proof {
        assert(digit_val(c) == d as nat);
    }
    if acc > (u64::MAX - d) / 10 {
        proof {
            let x = (u64::MAX - d) as int;
            lemma_fundamental_div_mod(x, 10);
            assert(x / 10 * 10 >= x - 9);
            assert(acc * 10 + d > u64::MAX);
            assert(v@.skip(pos as int).drop_first() =~= v@.skip(pos as int + 1));
            lemma_consume_digits_ge_acc(v@.skip(pos as int + 1), (acc * 10 + d) as nat);
        }
        return None;
    }
    let acc2 = acc * 10 + d;
    proof {
        assert(v@.skip(pos as int).drop_first() =~= v@.skip(pos as int + 1));
    }
    consume_digits_exec(v, pos + 1, acc2)
}

/// Parses a decimal number at `pos`; fails when there is no digit, or when
/// the value would not fit in a machine word.
fn parse_nat_exec(v: &Vec<char>, pos: usize) -> (r: Option<(u64, usize)>)
    requires
        pos <= v@.len(),
    ensures
        match r {
            Some((n, p2)) => pos <= p2 <= v@.len() && parse_nat(v@.skip(pos as int)) == Some(
                ((n as nat, v@.skip(p2 as int))),
            ),
            None => parse_nat(v@.skip(pos as int)) is None || parse_nat(
                v@.skip(pos as int),
            )->Some_0.0 > u64::MAX,
        },
{
    if pos == v.len() {
        proof {
            assert(v@.skip(pos as int).len() == 0);
        }
        return None;
    }
    let c = v[pos];
    proof {
        assert(v@.skip(pos as int)[0] == c);
    }
    if !is_digit_exec(c) {
        return None;
    }
    consume_digits_exec(v, pos, 0)
}

/// Parses a length-prefixed string field at `pos`.
pub fn parse_string_exec(v: &Vec<char>, pos: usize) -> (r: Option<(String, usize)>)
    requires
        pos <= v@.len(),
    ensures
        match r {
            Some((x, p2)) => pos <= p2 <= v@.len() && parse_string(v@.skip(pos as int)) == Some(
                (x@, v@.skip(p2 as int)),
            ),
            None => parse_string(v@.skip(pos as int)) is None,
        },
{
    let ghost s = v@.skip(pos as int);
    let total = v.len();
    match parse_nat_exec(v, pos) {
        None => {
            proof {
                if parse_nat(s) is Some {
                    let (n, r1) = parse_nat(s)->Some_0;
                    lemma_parse_nat_shrinks(s);
                    assert(v@.len() == total);
                    assert(usize::MAX <= u64::MAX);
                    if r1.len() > 0 && r1[0] == ':' {
                        assert(n > r1.drop_first().len());
                    }
                }
            }
            None
        },
        Some((n, p1)) => {
            if p1 == v.len() {
                proof {
                    assert(v@.skip(p1 as int).len() == 0);
                }
                return None;
            }
            let c = v[p1];
            proof {
                assert(v@.skip(p1 as int)[0] == c);
            }
            if c != ':' {
                return None;
            }
            let start = p1 + 1;
            let remaining = v.len() - start;
            proof {
                assert(v@.skip(p1 as int).drop_first() =~= v@.skip(start as int));
                assert(v@.skip(start as int).len() == remaining);
            }
            if n > remaining as u64 {
                return None;
            }
            let count = n as usize;
            let mut chars: Vec<char> = Vec::new();
            let mut i: usize = 0;
            while i < count
                invariant
                    i <= count,
                    start + count <= v@.len(),
                    v@.len() <= usize::MAX,
                    chars@ =~= v@.subrange(start as int, start as int + i as int),
                decreases count - i,
            {
                chars.push(v[start + i]);
                i = i + 1;
            }
            let text = string_from_chars(&chars);
            let p2 = start + count;
            proof {
                let r2 = v@.skip(p1 as int).drop_first();
                assert(r2.take(n as int) =~= v@.subrange(start as int, start as int + n as int));
                assert(r2.skip(n as int) =~= v@.skip(p2 as int));
                assert(text@ == r2.take(n as int));
            }
            Some((text, p2))
        },
    }
}

/// Parses a list header at `pos`; fails when there is no header, or when
/// the announced count would not fit in a machine word.
pub fn parse_count_exec(v: &Vec<char>, pos: usize) -> (r: Option<(u64, usize)>)
    requires
        pos <= v@.len(),
    ensures
        match r {
            Some((n, p2)) => pos <= p2 <= v@.len() && parse_count(v@.skip(pos as int)) == Some(
                ((n as nat, v@.skip(p2 as int))),
            ),
            None => parse_count(v@.skip(pos as int)) is None || parse_count(
                v@.skip(pos as int),
            )->Some_0.0 > u64::MAX,
        },
{
    match parse_nat_exec(v, pos) {
        None => None,
        Some((n, p1)) => {
            if p1 == v.len() {
                proof {
                    assert(v@.skip(p1 as int).len() == 0);
                }
                return None;
            }
            let c = v[p1];
            proof {
                assert(v@.skip(p1 as int)[0] == c);
            }
            if c != ';' {
                return None;
            }
            proof {
                assert(v@.skip(p1 as int).drop_first() =~= v@.skip(p1 as int + 1));
            }
            Some((n, p1 + 1))
        },
    }
}

/// Parses a counted list of string fields at `pos`.
fn parse_string_list_exec(v: &Vec<char>, pos: usize) -> (r: Option<(Vec<String>, usize)>)
    requires
        pos <= v@.len(),
    ensures
        match r {
            Some((xs, p2)) => pos <= p2 <= v@.len() && parse_string_list(v@.skip(pos as int))
                == Some((xs.deep_view(), v@.skip(p2 as int))),
            None => parse_string_list(v@.skip(pos as int)) is None,
        },
{
    let ghost s = v@.skip(pos as int);
    let total = v.len();
    match parse_count_exec(v, pos) {
        None => {
            proof {
                if parse_count(s) is Some {
                    let (n, r1) = parse_count(s)->Some_0;
                    lemma_parse_count_shrinks(s);
                    assert(v@.len() == total);
                    assert(usize::MAX <= u64::MAX);
                    lemma_parse_strings_overflow(r1, n);
                }
            }
            None
        },
        Some((n, p1)) => {
            let mut items: Vec<String> = Vec::new();
            let mut i: u64 = 0;
            let mut p = p1;
            proof {
                if parse_strings(v@.skip(p1 as int), n as nat) is Some {
                    let (xs, r) = parse_strings(v@.skip(p1 as int), n as nat)->Some_0;
                    assert(Seq::<Seq<char>>::empty() + xs =~= xs);
                }
            }
            while i < n
                invariant
                    i <= n,
                    pos <= p1 <= p <= v@.len(),
                    items.deep_view().len() == i,
                    parse_count(v@.skip(pos as int)) == Some((n as nat, v@.skip(p1 as int))),
                    (match parse_strings(v@.skip(p as int), (n - i) as nat) {
                        None => parse_strings(v@.skip(p1 as int), n as nat) is None,
                        Some((xs, r)) => parse_strings(v@.skip(p1 as int), n as nat) == Some(
                            (items.deep_view() + xs, r),
                        ),
                    }),
                decreases n - i,
            {
                match parse_string_exec(v, p) {
                    None => {
                        return None;
                    },
                    Some((x, p2)) => {
                        proof {
                            let k = (n - i) as nat;
                            if parse_strings(v@.skip(p2 as int), (k - 1) as nat) is Some {
                                let (xs, r) = parse_strings(
                                    v@.skip(p2 as int),
                                    (k - 1) as nat,
                                )->Some_0;
                                assert(items.deep_view().push(x@) + xs =~= items.deep_view() + (
                                seq![x@] + xs));
                            }
                        }
                        let ghost pre = items.deep_view();
                        items.push(x);
                        proof {
                            assert(items.deep_view() =~= pre.push(x@));
                        }
                        p = p2;
                        i = i + 1;
                    },
                }
            }
            proof {
                assert(items.deep_view() + Seq::<Seq<char>>::empty() =~= items.deep_view());
            }
            Some((items, p))
        },
    }
}

/// Parses a project's test commands at `pos`.
fn parse_tests_exec(v: &Vec<char>, pos: usize) -> (r: Option<(Vec<Vec<String>>, usize)>)
    requires
        pos <= v@.len(),
    ensures
        match r {
            Some((ts, p2)) => pos <= p2 <= v@.len() && parse_tests(v@.skip(pos as int)) == Some(
                (ts.deep_view(), v@.skip(p2 as int)),
            ),
            None => parse_tests(v@.skip(pos as int)) is None,
        },
{
    let ghost s = v@.skip(pos as int);
    let total = v.len();
    match parse_count_exec(v, pos) {
        None => {
            proof {
                if parse_count(s) is Some {
                    let (n, r1) = parse_count(s)->Some_0;
                    lemma_parse_count_shrinks(s);
                    assert(v@.len() == total);
                    assert(usize::MAX <= u64::MAX);
                    lemma_parse_word_lists_overflow(r1, n);
                }
            }
            None
        },
        Some((n, p1)) => {
            let mut items: Vec<Vec<String>> = Vec::new();
            let mut i: u64 = 0;
            let mut p = p1;
            proof {
                if parse_word_lists(v@.skip(p1 as int), n as nat) is Some {
                    let (xs, r) = parse_word_lists(v@.skip(p1 as int), n as nat)->Some_0;
                    assert(Seq::<Seq<Seq<char>>>::empty() + xs =~= xs);
                }
            }
            while i < n
                invariant
                    i <= n,
                    pos <= p1 <= p <= v@.len(),
                    items.deep_view().len() == i,
                    parse_count(v@.skip(pos as int)) == Some((n as nat, v@.skip(p1 as int))),
                    (match parse_word_lists(v@.skip(p as int), (n - i) as nat) {
                        None => parse_word_lists(v@.skip(p1 as int), n as nat) is None,
                        Some((xs, r)) => parse_word_lists(v@.skip(p1 as int), n as nat) == Some(
                            (items.deep_view() + xs, r),
                        ),
                    }),
                decreases n - i,
            {
                match parse_string_list_exec(v, p) {
                    None => {
                        return None;
                    },
                    Some((x, p2)) => {
                        proof {
                            let k = (n - i) as nat;
                            if parse_word_lists(v@.skip(p2 as int), (k - 1) as nat) is Some {
                                let (xs, r) = parse_word_lists(
                                    v@.skip(p2 as int),
                                    (k - 1) as nat,
                                )->Some_0;
                                assert(items.deep_view().push(x.deep_view()) + xs
                                    =~= items.deep_view() + (seq![x.deep_view()] + xs));
                            }
                        }
                        let ghost pre = items.deep_view();
                        let ghost xdv = x.deep_view();
                        items.push(x);
                        proof {
                            assert(items.deep_view() =~= pre.push(xdv));
                        }
                        p = p2;
                        i = i + 1;
                    },
                }
            }
            proof {
                assert(items.deep_view() + Seq::<Seq<Seq<char>>>::empty() =~= items.deep_view());
            }
            Some((items, p))
        },
    }
}

/// Parses a committed digest or its absence at `pos`.
fn parse_digest_exec(v: &Vec<char>, pos: usize) -> (r: Option<(Option<String>, usize)>)
    requires
        pos <= v@.len(),
    ensures
        match r {
            Some((d, p2)) => pos <= p2 <= v@.len() && parse_digest(v@.skip(pos as int)) == Some(
                (d.deep_view(), v@.skip(p2 as int)),
            ),
            None => parse_digest(v@.skip(pos as int)) is None,
        },
{
    if pos == v.len() {
        proof {
            assert(v@.skip(pos as int).len() == 0);
        }
        return None;
    }
    let c = v[pos];
    proof {
        assert(v@.skip(pos as int)[0] == c);
        assert(v@.skip(pos as int).drop_first() =~= v@.skip(pos as int + 1));
    }
    if c == 'N' {
        return Some((None, pos + 1));
    }
    if c == 'S' {
        match parse_string_exec(v, pos + 1) {
            None => None,
            Some((x, p2)) => Some((Some(x), p2)),
        }
    } else {
        None
    }
}

/// Parses one project record at `pos`.
pub fn parse_project_exec(v: &Vec<char>, pos: usize) -> (r: Option<(TestProject, usize)>)
    requires
        pos <= v@.len(),
    ensures
        match r {
            Some((p, p2)) => pos <= p2 <= v@.len() && parse_project(v@.skip(pos as int)) == Some(
                (p@, v@.skip(p2 as int)),
            ),
            None => parse_project(v@.skip(pos as int)) is None,
        },
{
    let (name, p1) = match parse_string_exec(v, pos) {
        None => {
            return None;
        },
        Some(x) => x,
    };
    let (tests, p2) = match parse_tests_exec(v, p1) {
        None => {
            return None;
        },
        Some(x) => x,
    };
    let (digest, p3) = match parse_digest_exec(v, p2) {
        None => {
            return None;
        },
        Some(x) => x,
    };
    let project = TestProject::from_parts(name, tests, digest);
    Some((project, p3))
}

/// Parses a whole snapshot. Succeeds exactly when the text is one serialized
/// registry with nothing trailing it.
pub fn parse_registry_exec(v: &Vec<char>) -> (r: Option<Vec<TestProject>>)
    ensures
        match r {
            Some(list) => parse_registry(v@) matches Some((ps, rest)) && ps == list.deep_view()
                && rest.len() == 0,
            None => parse_registry(v@) is None || parse_registry(v@)->Some_0.1.len() > 0,
        },
{
    let ghost s = v@.skip(0);
    proof {
        assert(s =~= v@);
    }
    let total = v.len();
    match parse_count_exec(v, 0) {
        None => {
            proof {
                if parse_count(v@) is Some {
                    let (n, r1) = parse_count(v@)->Some_0;
                    lemma_parse_count_shrinks(v@);
                    assert(v@.len() == total);
                    assert(usize::MAX <= u64::MAX);
                    lemma_parse_projects_overflow(r1, n);
                }
            }
            None
        },
        Some((n, p1)) => {
            let mut items: Vec<TestProject> = Vec::new();
            let mut i: u64 = 0;
            let mut p = p1;
            proof {
                if parse_projects(v@.skip(p1 as int), n as nat) is Some {
                    let (xs, r) = parse_projects(v@.skip(p1 as int), n as nat)->Some_0;
                    assert(Seq::<ProjectView>::empty() + xs =~= xs);
                }
            }
            while i < n
                invariant
                    i <= n,
                    p1 <= p <= v@.len(),
                    items.deep_view().len() == i,
                    parse_count(v@.skip(0)) == Some((n as nat, v@.skip(p1 as int))),
                    v@.skip(0) =~= v@,
                    (match parse_projects(v@.skip(p as int), (n - i) as nat) {
                        None => parse_projects(v@.skip(p1 as int), n as nat) is None,
                        Some((xs, r)) => parse_projects(v@.skip(p1 as int), n as nat) == Some(
                            (items.deep_view() + xs, r),
                        ),
                    }),
                decreases n - i,
            {
                match parse_project_exec(v, p) {
                    None => {
                        return None;
                    },
                    Some((x, p2)) => {
                        proof {
                            let k = (n - i) as nat;
                            if parse_projects(v@.skip(p2 as int), (k - 1) as nat) is Some {
                                let (xs, r) = parse_projects(
                                    v@.skip(p2 as int),
                                    (k - 1) as nat,
                                )->Some_0;
                                assert(items.deep_view().push(x@) + xs =~= items.deep_view() + (
                                seq![x@] + xs));
                            }
                        }
                        let ghost pre = items.deep_view();
                        let ghost xv = x@;
                        items.push(x);
                        proof {
                            assert(items.deep_view() =~= pre.push(xv));
                        }
                        p = p2;
                        i = i + 1;
                    },
                }
            }
            proof {
                assert(items.deep_view() + Seq::<ProjectView>::empty() =~= items.deep_view());
            }
            if p != v.len() {
                proof {
                    assert(v@.skip(p as int).len() > 0);
                }
                return None;
            }
            proof {
                assert(v@.skip(p as int).len() == 0);
            }
            Some(items)
        },
    }
}

/// Appending one more string field to a serialized run of fields.
pub proof fn lemma_ser_strings_snoc(items: Seq<Seq<char>>, x: Seq<char>)
    ensures
        ser_strings(items.push(x)) == ser_strings(items) + ser_string(x),
    decreases items.len(),
{
    if items.len() == 0 {
        assert(items.push(x)[0] == x);
        assert(items.push(x).drop_first() =~= items);
        assert(ser_strings(items.push(x)) == ser_string(x) + ser_strings(items.push(x).drop_first()));
        assert(ser_strings(items) == Seq::<char>::empty());
        assert(ser_string(x) + Seq::<char>::empty() =~= ser_string(x));
        assert(ser_strings(items) + ser_string(x) =~= ser_string(x));
    } else {
        assert(items.push(x)[0] == items[0]);
        assert(items.push(x).drop_first() =~= items.drop_first().push(x));
        lemma_ser_strings_snoc(items.drop_first(), x);
        assert(ser_string(items[0]) + (ser_strings(items.drop_first()) + ser_string(x))
            =~= ser_string(items[0]) + ser_strings(items.drop_first()) + ser_string(x));
    }
}

/// Appending one more word list to a serialized run of word lists.
pub proof fn lemma_ser_word_lists_snoc(ts: Seq<Seq<Seq<char>>>, x: Seq<Seq<char>>)
    ensures
        ser_word_lists(ts.push(x)) == ser_word_lists(ts) + ser_string_list(x),
    decreases ts.len(),
{
    if ts.len() == 0 {
        assert(ts.push(x)[0] == x);
        assert(ts.push(x).drop_first() =~= ts);
        assert(ser_word_lists(ts.push(x)) == ser_string_list(x) + ser_word_lists(
            ts.push(x).drop_first(),
        ));
        assert(ser_word_lists(ts) == Seq::<char>::empty());
        assert(ser_string_list(x) + Seq::<char>::empty() =~= ser_string_list(x));
        assert(ser_word_lists(ts) + ser_string_list(x) =~= ser_string_list(x));
    } else {
        assert(ts.push(x)[0] == ts[0]);
        assert(ts.push(x).drop_first() =~= ts.drop_first().push(x));
        lemma_ser_word_lists_snoc(ts.drop_first(), x);
        assert(ser_string_list(ts[0]) + (ser_word_lists(ts.drop_first()) + ser_string_list(x))
            =~= ser_string_list(ts[0]) + ser_word_lists(ts.drop_first()) + ser_string_list(x));
    }
}

/// Appending one more record to a serialized run of project records.
pub proof fn lemma_ser_projects_snoc(ps: Seq<ProjectView>, x: ProjectView)
    ensures
        ser_projects(ps.push(x)) == ser_projects(ps) + ser_project(x),
    decreases ps.len(),
{
    if ps.len() == 0 {
        assert(ps.push(x)[0] == x);
        assert(ps.push(x).drop_first() =~= ps);
        assert(ser_projects(ps.push(x)) == ser_project(x) + ser_projects(ps.push(x).drop_first()));
        assert(ser_projects(ps) == Seq::<char>::empty());
        assert(ser_project(x) + Seq::<char>::empty() =~= ser_project(x));
        assert(ser_projects(ps) + ser_project(x) =~= ser_project(x));
    } else {
        assert(ps.push(x)[0] == ps[0]);
        assert(ps.push(x).drop_first() =~= ps.drop_first().push(x));
        lemma_ser_projects_snoc(ps.drop_first(), x);
        assert(ser_project(ps[0]) + (ser_projects(ps.drop_first()) + ser_project(x))
            =~= ser_project(ps[0]) + ser_projects(ps.drop_first()) + ser_project(x));
    }
}

/// Appends one length-prefixed string field.
pub fn ser_string_push(out: &mut String, s: &str)
    ensures
        final(out)@ == old(out)@ + ser_string(s@),
{
    let len = s.unicode_len();
    let rendered = u64_to_string(len as u64);
    out.append(rendered.as_str());
    out.append(":");
    out.append(s);
    proof {
        assert(out@ =~= old(out)@ + ser_string(s@));
    }
}

/// Appends one list header.
pub fn ser_count_push(out: &mut String, n: u64)
    ensures
        final(out)@ == old(out)@ + ser_count(n as nat),
{
    let rendered = u64_to_string(n);
    out.append(rendered.as_str());
    out.append(";");
    proof {
        assert(out@ =~= old(out)@ + ser_count(n as nat));
    }
}

} // verus!
