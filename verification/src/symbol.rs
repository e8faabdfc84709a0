//! Names of solver constants.
//!
//! Each version of a local value gets a solver constant of its own. The
//! constant's symbol is built from the function's name, a tag that tells
//! textual from numeric names, the name itself and the version number.
//! The underscore that ends the function's name is the first underscore of
//! the symbol: an underscore inside the function's name is written as
//! `~u`, and a tilde as `~~`. So no two symbols are equal unless they were
//! made for the same function, the same name and the same version.

use crate::name::{Name, NameView};
use vstd::prelude::*;
use vstd::string::*;

verus! {

/// The character of the decimal digit `digit`.
pub open spec fn digit_char(digit: nat) -> char {
    if digit == 0 {
        '0'
    } else if digit == 1 {
        '1'
    } else if digit == 2 {
        '2'
    } else if digit == 3 {
        '3'
    } else if digit == 4 {
        '4'
    } else if digit == 5 {
        '5'
    } else if digit == 6 {
        '6'
    } else if digit == 7 {
        '7'
    } else if digit == 8 {
        '8'
    } else {
        '9'
    }
}

/// Whether `c` is one of the ten decimal digits.
pub open spec fn is_digit(c: char) -> bool {
    c == '0' || c == '1' || c == '2' || c == '3' || c == '4' || c == '5' || c == '6' || c == '7'
        || c == '8' || c == '9'
}

/// The number that the digit character `c` stands for.
pub open spec fn digit_value(c: char) -> nat {
    if c == '0' {
        0
    } else if c == '1' {
        1
    } else if c == '2' {
        2
    } else if c == '3' {
        3
    } else if c == '4' {
        4
    } else if c == '5' {
        5
    } else if c == '6' {
        6
    } else if c == '7' {
        7
    } else if c == '8' {
        8
    } else {
        9
    }
}

/// The decimal numeral of `n`, without leading zeros.
pub open spec fn decimal(n: nat) -> Seq<char>
    decreases n,
{
    if n < 10 {
        seq![digit_char(n)]
    } else {
        decimal(n / 10).push(digit_char(n % 10))
    }
}

/// The number that a string of digits denotes.
pub open spec fn decimal_value(digits: Seq<char>) -> nat
    decreases digits.len(),
{
    if digits.len() == 0 {
        0
    } else {
        decimal_value(digits.drop_last()) * 10 + digit_value(digits.last())
    }
}

/// Every character of `s` is a decimal digit.
pub open spec fn all_digits(s: Seq<char>) -> bool {
    forall|i: int| 0 <= i < s.len() ==> is_digit(#[trigger] s[i])
}

/// No character of `s` is the NUL character.
pub open spec fn nul_free(s: Seq<char>) -> bool {
    forall|i: int| 0 <= i < s.len() ==> #[trigger] s[i] != '\0'
}

/// No character of a name's text is the NUL character.
pub open spec fn name_nul_free(name: NameView) -> bool {
    match name {
        NameView::Name(text) => nul_free(text),
        NameView::Number(_) => true,
    }
}

/// A decimal numeral is a non-empty string of digits that denotes the
/// number it was made from.
pub proof fn lemma_decimal(n: nat)
    ensures
        decimal(n).len() > 0,
        all_digits(decimal(n)),
        decimal_value(decimal(n)) == n,
    decreases n,
{
    if n < 10 {
        let s = decimal(n);
        assert(s.drop_last() =~= Seq::<char>::empty());
        assert(decimal_value(s.drop_last()) == 0);
        assert(s.last() == digit_char(n));
    } else {
        lemma_decimal(n / 10);
        let s = decimal(n);
        assert(s.drop_last() =~= decimal(n / 10));
        assert(s.last() == digit_char(n % 10));
        assert(digit_value(digit_char(n % 10)) == n % 10);
        assert forall|i: int| 0 <= i < s.len() implies is_digit(#[trigger] s[i]) by {
            if i < s.len() - 1 {
                assert(s[i] == decimal(n / 10)[i]);
            }
        }
    }
}

/// Different numbers have different decimal numerals.
pub proof fn lemma_decimal_injective(a: nat, b: nat)
    requires
        decimal(a) == decimal(b),
    ensures
        a == b,
{
    lemma_decimal(a);
    lemma_decimal(b);
}

/// Whether `c` is written as it is in an escaped text: every character is
/// but the underscore and the tilde.
pub open spec fn is_plain(c: char) -> bool {
    c != '_' && c != '~'
}

/// How a character is written in an escaped text: `~u` for the
/// underscore, `~~` for the tilde, every other character as it is.
pub open spec fn escaped_char(c: char) -> Seq<char> {
    if c == '_' {
        seq!['~', 'u']
    } else if c == '~' {
        seq!['~', '~']
    } else {
        seq![c]
    }
}

/// `text` with each of its characters escaped: a text without an
/// underscore, from which `text` can be read back.
pub open spec fn escaped(text: Seq<char>) -> Seq<char>
    decreases text.len(),
{
    if text.len() == 0 {
        Seq::empty()
    } else {
        escaped_char(text[0]) + escaped(text.drop_first())
    }
}

/// Every character of `s` is written as it is in an escaped text.
pub open spec fn all_plain(s: Seq<char>) -> bool {
    forall|i: int| 0 <= i < s.len() ==> is_plain(#[trigger] s[i])
}

/// Escaping goes character by character: the escaped form of two texts
/// put together is their escaped forms put together.
pub proof fn lemma_escaped_concat(a: Seq<char>, b: Seq<char>)
    ensures
        escaped(a + b) == escaped(a) + escaped(b),
    decreases a.len(),
{
    if a.len() == 0 {
        assert(a + b =~= b);
        assert(escaped(a) + escaped(b) =~= escaped(b));
    } else {
        lemma_escaped_concat(a.drop_first(), b);
        assert((a + b).drop_first() =~= a.drop_first() + b);
        assert((a + b)[0] == a[0]);
        assert(escaped(a + b) =~= escaped(a) + escaped(b));
    }
}

/// A text without underscore and tilde is its own escaped form.
pub proof fn lemma_escaped_plain(text: Seq<char>)
    requires
        all_plain(text),
    ensures
        escaped(text) == text,
    decreases text.len(),
{
    if text.len() > 0 {
        assert(is_plain(text[0]));
        assert forall|i: int| 0 <= i < text.drop_first().len() implies is_plain(
            #[trigger] text.drop_first()[i],
        ) by {
            assert(text.drop_first()[i] == text[i + 1]);
        }
        lemma_escaped_plain(text.drop_first());
        assert(escaped(text) =~= text);
    }
}

/// An escaped text holds no underscore, and no NUL character unless the
/// text does.
pub proof fn lemma_escaped_chars(text: Seq<char>)
    ensures
        forall|i: int| 0 <= i < escaped(text).len() ==> #[trigger] escaped(text)[i] != '_',
        nul_free(text) ==> nul_free(escaped(text)),
    decreases text.len(),
{
    if text.len() > 0 {
        let head = escaped_char(text[0]);
        let tail = escaped(text.drop_first());
        lemma_escaped_chars(text.drop_first());
        assert forall|i: int| 0 <= i < escaped(text).len() implies #[trigger] escaped(text)[i]
            != '_' by {
            if i >= head.len() {
                assert(escaped(text)[i] == tail[i - head.len()]);
            }
        }
        if nul_free(text) {
            assert(text[0] != '\0');
            assert forall|i: int| 0 <= i < text.drop_first().len() implies #[trigger] text.drop_first()[i]
                != '\0' by {
                assert(text.drop_first()[i] == text[i + 1]);
            }
            assert forall|i: int| 0 <= i < escaped(text).len() implies #[trigger] escaped(text)[i]
                != '\0' by {
                if i >= head.len() {
                    assert(escaped(text)[i] == tail[i - head.len()]);
                }
            }
        }
    }
}

/// A text can be read back from its escaped form: two texts with the same
/// escaped form are the same text.
pub proof fn lemma_escaped_injective(a: Seq<char>, b: Seq<char>)
    requires
        escaped(a) == escaped(b),
    ensures
        a == b,
    decreases a.len(),
{
    if a.len() == 0 {
        if b.len() > 0 {
            assert(escaped(b).len() >= escaped_char(b[0]).len());
        }
        assert(a =~= b);
    } else if b.len() == 0 {
        assert(escaped(a).len() >= escaped_char(a[0]).len());
    } else {
        let head_a = escaped_char(a[0]);
        let head_b = escaped_char(b[0]);
        let tail_a = escaped(a.drop_first());
        let tail_b = escaped(b.drop_first());
        assert(escaped(a)[0] == head_a[0]);
        assert(escaped(b)[0] == head_b[0]);
        if is_plain(a[0]) {
            assert(is_plain(b[0]));
            assert(a[0] == b[0]);
        } else {
            assert(!is_plain(b[0]));
            assert(escaped(a)[1] == head_a[1]);
            assert(escaped(b)[1] == head_b[1]);
            assert(a[0] == b[0]);
        }
        lemma_cancel_prefix(head_a, tail_a, tail_b);
        lemma_escaped_injective(a.drop_first(), b.drop_first());
        assert(a =~= seq![a[0]] + a.drop_first());
        assert(b =~= seq![b[0]] + b.drop_first());
    }
}

/// The tag that tells the symbols of textual names from those of numeric
/// names: `name_` for a textual name, `%` for a number.
pub open spec fn name_tag(name: NameView) -> Seq<char> {
    match name {
        NameView::Name(_) => seq!['n', 'a', 'm', 'e', '_'],
        NameView::Number(_) => seq!['%'],
    }
}

/// The text of a textual name, the decimal numeral of a numeric one.
pub open spec fn name_stem(name: NameView) -> Seq<char> {
    match name {
        NameView::Name(text) => text,
        NameView::Number(number) => decimal(number as nat),
    }
}

/// The symbol of the solver constant for version `version` of the local
/// value `name` of the function `funcname`:
/// `@`, the function's name in escaped form, `_`, the name's tag and stem,
/// `_`, and the version in decimal.
pub open spec fn versioned_symbol(funcname: Seq<char>, name: NameView, version: nat) -> Seq<char> {
    seq!['@'] + escaped(funcname) + seq!['_'] + name_tag(name) + name_stem(name) + seq!['_']
        + decimal(version)
}

/// A symbol holds no NUL character unless the function's name or the
/// local name does.
pub proof fn lemma_symbol_nul_free(funcname: Seq<char>, name: NameView, version: nat)
    requires
        nul_free(funcname),
        name_nul_free(name),
    ensures
        nul_free(versioned_symbol(funcname, name, version)),
{
    lemma_decimal(version);
    lemma_escaped_chars(funcname);
    let symbol = versioned_symbol(funcname, name, version);
    let head = seq!['@'] + escaped(funcname) + seq!['_'] + name_tag(name);
    let stem = name_stem(name);
    assert(nul_free(head)) by {
        let function = escaped(funcname);
        assert forall|i: int| 0 <= i < head.len() implies #[trigger] head[i] != '\0' by {
            if 1 <= i < 1 + function.len() {
                assert(head[i] == function[i - 1]);
            }
        }
    }
    assert(nul_free(stem)) by {
        match name {
            NameView::Name(text) => {},
            NameView::Number(number) => {
                lemma_decimal(number as nat);
            },
        }
    }
    assert(symbol =~= head + stem + seq!['_'] + decimal(version));
    assert forall|i: int| 0 <= i < symbol.len() implies #[trigger] symbol[i] != '\0' by {
        if i < head.len() {
            assert(symbol[i] == head[i]);
        } else if i < head.len() + stem.len() {
            assert(symbol[i] == stem[i - head.len()]);
        } else if i == head.len() + stem.len() {
            assert(symbol[i] == '_');
        } else {
            assert(symbol[i] == decimal(version)[i - head.len() - stem.len() - 1]);
            assert(is_digit(decimal(version)[i - head.len() - stem.len() - 1]));
        }
    }
}

/// Two sequences that are equal behind a common prefix are equal.
proof fn lemma_cancel_prefix(prefix: Seq<char>, a: Seq<char>, b: Seq<char>)
    requires
        prefix + a == prefix + b,
    ensures
        a == b,
{
    assert(a =~= (prefix + a).subrange(prefix.len() as int, (prefix + a).len() as int));
    assert(b =~= (prefix + b).subrange(prefix.len() as int, (prefix + b).len() as int));
}

/// A string that ends in an underscore and a numeral can be split in one
/// way only: a numeral holds no underscore.
proof fn lemma_split_at_last_underscore(
    head_a: Seq<char>,
    digits_a: Seq<char>,
    head_b: Seq<char>,
    digits_b: Seq<char>,
)
    requires
        head_a + seq!['_'] + digits_a == head_b + seq!['_'] + digits_b,
        all_digits(digits_a),
        all_digits(digits_b),
    ensures
        head_a == head_b,
        digits_a == digits_b,
{
    let whole_a = head_a + seq!['_'] + digits_a;
    let whole_b = head_b + seq!['_'] + digits_b;
    assert(whole_a.len() == head_a.len() + 1 + digits_a.len());
    assert(whole_b.len() == head_b.len() + 1 + digits_b.len());
    assert(whole_a[head_a.len() as int] == '_');
    assert(whole_b[head_b.len() as int] == '_');
    if head_a.len() < head_b.len() {
        let at: int = head_b.len() as int;
        assert(whole_a[at] == digits_a[at - head_a.len() - 1]);
        assert(is_digit(digits_a[at - head_a.len() - 1]));
    } else if head_b.len() < head_a.len() {
        let at: int = head_a.len() as int;
        assert(whole_b[at] == digits_b[at - head_b.len() - 1]);
        assert(is_digit(digits_b[at - head_b.len() - 1]));
    } else {
        assert(head_a =~= whole_a.subrange(0, head_a.len() as int));
        assert(head_b =~= whole_b.subrange(0, head_b.len() as int));
        assert(digits_a =~= whole_a.subrange(head_a.len() as int + 1, whole_a.len() as int));
        assert(digits_b =~= whole_b.subrange(head_b.len() as int + 1, whole_b.len() as int));
    }
}

/// Within one function, two symbols are equal only if they were made for
/// the same name and the same version: no two versions of a local value,
/// and no two local values of a function, share a solver constant.
pub proof fn lemma_symbols_distinct_within_function(
    funcname: Seq<char>,
    name_a: NameView,
    version_a: nat,
    name_b: NameView,
    version_b: nat,
)
    requires
        versioned_symbol(funcname, name_a, version_a) == versioned_symbol(
            funcname,
            name_b,
            version_b,
        ),
    ensures
        name_a == name_b,
        version_a == version_b,
{
    let prefix = seq!['@'] + escaped(funcname) + seq!['_'];
    let head_a = name_tag(name_a) + name_stem(name_a);
    let head_b = name_tag(name_b) + name_stem(name_b);
    let rest_a = head_a + seq!['_'] + decimal(version_a);
    let rest_b = head_b + seq!['_'] + decimal(version_b);
    assert(versioned_symbol(funcname, name_a, version_a) =~= prefix + rest_a);
    assert(versioned_symbol(funcname, name_b, version_b) =~= prefix + rest_b);
    lemma_cancel_prefix(prefix, rest_a, rest_b);
    lemma_decimal(version_a);
    lemma_decimal(version_b);
    lemma_split_at_last_underscore(head_a, decimal(version_a), head_b, decimal(version_b));
    lemma_decimal_injective(version_a, version_b);
    assert(head_a[0] == name_tag(name_a)[0]);
    assert(head_b[0] == name_tag(name_b)[0]);
    match (name_a, name_b) {
        (NameView::Name(text_a), NameView::Name(text_b)) => {
            lemma_cancel_prefix(name_tag(name_a), text_a, text_b);
        },
        (NameView::Number(number_a), NameView::Number(number_b)) => {
            lemma_cancel_prefix(
                name_tag(name_a),
                decimal(number_a as nat),
                decimal(number_b as nat),
            );
            lemma_decimal_injective(number_a as nat, number_b as nat);
        },
        _ => {},
    }
}

/// Two symbols are equal only if they were made for the same function,
/// the same name and the same version: every version of every local value
/// of every function has a solver constant of its own.
pub proof fn lemma_symbols_are_unique(
    funcname_a: Seq<char>,
    name_a: NameView,
    version_a: nat,
    funcname_b: Seq<char>,
    name_b: NameView,
    version_b: nat,
)
    requires
        versioned_symbol(funcname_a, name_a, version_a) == versioned_symbol(
            funcname_b,
            name_b,
            version_b,
        ),
    ensures
        funcname_a == funcname_b,
        name_a == name_b,
        version_a == version_b,
{
    let symbol_a = versioned_symbol(funcname_a, name_a, version_a);
    let symbol_b = versioned_symbol(funcname_b, name_b, version_b);
    let function_a = escaped(funcname_a);
    let function_b = escaped(funcname_b);
    let rest_a = seq!['_'] + name_tag(name_a) + name_stem(name_a) + seq!['_'] + decimal(
        version_a,
    );
    let rest_b = seq!['_'] + name_tag(name_b) + name_stem(name_b) + seq!['_'] + decimal(
        version_b,
    );
    assert(symbol_a =~= seq!['@'] + function_a + rest_a);
    assert(symbol_b =~= seq!['@'] + function_b + rest_b);
    lemma_escaped_chars(funcname_a);
    lemma_escaped_chars(funcname_b);
    // the first underscore of a symbol ends the function's name
    let end_a: int = function_a.len() as int + 1;
    let end_b: int = function_b.len() as int + 1;
    assert(symbol_a[end_a] == '_');
    assert(symbol_b[end_b] == '_');
    if end_a < end_b {
        assert(symbol_b[end_a] == function_b[end_a - 1]);
    } else if end_b < end_a {
        assert(symbol_a[end_b] == function_a[end_b - 1]);
    }
    assert(function_a =~= symbol_a.subrange(1, end_a));
    assert(function_b =~= symbol_b.subrange(1, end_b));
    lemma_escaped_injective(funcname_a, funcname_b);
    lemma_symbols_distinct_within_function(funcname_a, name_a, version_a, name_b, version_b);
}

/// The one-character string of a decimal digit.
fn digit_str(digit: usize) -> (s: &'static str)
    requires
        digit < 10,
    ensures
        s@ == seq![digit_char(digit as nat)],
{
    proof {
        reveal_strlit("0");
        reveal_strlit("1");
        reveal_strlit("2");
        reveal_strlit("3");
        reveal_strlit("4");
        reveal_strlit("5");
        reveal_strlit("6");
        reveal_strlit("7");
        reveal_strlit("8");
        reveal_strlit("9");
    }
    let s = if digit == 0 {
        "0"
    } else if digit == 1 {
        "1"
    } else if digit == 2 {
        "2"
    } else if digit == 3 {
        "3"
    } else if digit == 4 {
        "4"
    } else if digit == 5 {
        "5"
    } else if digit == 6 {
        "6"
    } else if digit == 7 {
        "7"
    } else if digit == 8 {
        "8"
    } else {
        "9"
    };
    assert(s@ =~= seq![digit_char(digit as nat)]);
    s
}

/// Writes `n` in decimal.
pub fn decimal_string(n: usize) -> (numeral: String)
    ensures
        numeral@ == decimal(n as nat),
    decreases n,
{
    if n < 10 {
        String::from_str(digit_str(n))
    } else {
        let mut numeral = decimal_string(n / 10);
        numeral.append(digit_str(n % 10));
        assert(numeral@ =~= decimal(n as nat));
        numeral
    }
}

/// Writes `text` in escaped form: `~u` for each underscore, `~~` for each
/// tilde, every other character as it is.
pub fn escape(text: &str) -> (out: String)
    ensures
        out@ == escaped(text@),
{
    proof {
        reveal_strlit("~u");
        reveal_strlit("~~");
    }
    let n = text.unicode_len();
    let mut out = String::new();
    // what lies before `written` is in `out`; from there up to `i` the text is plain
    let mut written: usize = 0;
    let mut i: usize = 0;
    while i < n
        invariant
            written <= i <= n,
            n == text@.len(),
            out@ == escaped(text@.take(written as int)),
            all_plain(text@.subrange(written as int, i as int)),
            "~u"@ == seq!['~', 'u'],
            "~~"@ == seq!['~', '~'],
        decreases n - i,
    {
        let c = text.get_char(i);
        if c == '_' || c == '~' {
            let ghost plain = text@.subrange(written as int, i as int);
            proof {
                lemma_escaped_plain(plain);
                lemma_escaped_concat(text@.take(written as int), plain);
                lemma_escaped_concat(text@.take(written as int) + plain, seq![c]);
                assert(text@.take(i + 1) =~= text@.take(written as int) + plain + seq![c]);
                assert(seq![c].drop_first() =~= Seq::<char>::empty());
                assert(escaped(seq![c].drop_first()) =~= Seq::<char>::empty());
                assert(escaped(seq![c]) =~= escaped_char(c));
            }
            out.append(text.substring_char(written, i));
            out.append(
                if c == '_' {
                    "~u"
                } else {
                    "~~"
                },
            );
            written = i + 1;
            assert(text@.subrange(written as int, i + 1) =~= Seq::<char>::empty());
        } else {
            assert(text@.subrange(written as int, i + 1) =~= text@.subrange(
                written as int,
                i as int,
            ).push(c));
        }
        i += 1;
    }
    proof {
        let plain = text@.subrange(written as int, n as int);
        lemma_escaped_plain(plain);
        lemma_escaped_concat(text@.take(written as int), plain);
        assert(text@ =~= text@.take(written as int) + plain);
    }
    out.append(text.substring_char(written, n));
    out
}

/// Builds the symbol of the solver constant for version `version` of the
/// local value `name` of the function `funcname`.
pub fn versioned_symbol_name(funcname: &str, name: &Name, version: usize) -> (symbol: String)
    ensures
        symbol@ == versioned_symbol(funcname@, name@, version as nat),
{
    proof {
        reveal_strlit("@");
        reveal_strlit("_");
        reveal_strlit("name_");
        reveal_strlit("%");
    }
    let mut symbol = String::from_str("@");
    let function = escape(funcname);
    symbol.append(function.as_str());
    symbol.append("_");
    match name {
        Name::Name(text) => {
            symbol.append("name_");
            symbol.append(text.as_str());
        },
        Name::Number(number) => {
            symbol.append("%");
            let numeral = decimal_string(*number);
            symbol.append(numeral.as_str());
        },
    }
    symbol.append("_");
    let numeral = decimal_string(version);
    symbol.append(numeral.as_str());
    assert("@"@ =~= seq!['@']);
    assert("_"@ =~= seq!['_']);
    assert("name_"@ =~= seq!['n', 'a', 'm', 'e', '_']);
    assert("%"@ =~= seq!['%']);
    assert(symbol@ =~= versioned_symbol(funcname@, name@, version as nat));
    symbol
}

} // verus!
