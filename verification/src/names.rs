//! The names of the variables that hold type ids: `type_id_`, the index of
//! the variant, `_`, the index of the field, both in decimal.

use vstd::prelude::*;
use vstd::string::StringExecFns;
use proc_macro2::{Ident, Span};
use crate::plan::TypeVar;

verus! {

/// An identifier of `proc_macro2`. Nothing is known of what it holds.
#[verifier::external_type_specification]
#[verifier::external_body]
pub struct ExIdent(proc_macro2::Ident);

/// A place in source code, of `proc_macro2`. Nothing is known of it.
#[verifier::external_type_specification]
#[verifier::external_body]
pub struct ExSpan(proc_macro2::Span);

/// Whether `c` is a letter of the English alphabet.
pub open spec fn is_letter(c: char) -> bool {
    ('a' <= c && c <= 'z') || ('A' <= c && c <= 'Z')
}

/// Whether `c` is a decimal digit.
pub open spec fn is_digit(c: char) -> bool {
    '0' <= c && c <= '9'
}

/// Whether `text` begins with a letter and is made of letters, digits and
/// underscores. Every such string is accepted as an identifier.
pub open spec fn is_plain_identifier(text: Seq<char>) -> bool {
    &&& text.len() > 0
    &&& is_letter(text[0])
    &&& forall|i: int|
        0 <= i < text.len() ==> is_letter(#[trigger] text[i]) || is_digit(text[i]) || text[i] == '_'
}

/// `proc_macro2::Span::call_site`: the span of the macro call that is being
/// expanded. Nothing is claimed of it.
pub assume_specification[ proc_macro2::Span::call_site ]() -> (span: Span)
;

/// The characters that an identifier is written with.
pub uninterp spec fn ident_text(ident: Ident) -> Seq<char>;

/// `proc_macro2::Ident::new`. The outside function panics on a string that
/// is no identifier, so the contract asks for a plain identifier. It claims
/// that the identifier is written as the string is; of where the identifier
/// stands it claims nothing.
pub assume_specification[ proc_macro2::Ident::new ](string: &str, span: Span) -> (ident: Ident)
    requires
        is_plain_identifier(string@),
    ensures
        ident_text(ident) == string@,
;

/// The character of the decimal digit `d`.
pub open spec fn digit(d: nat) -> char {
    if d == 0 {
        '0'
    } else if d == 1 {
        '1'
    } else if d == 2 {
        '2'
    } else if d == 3 {
        '3'
    } else if d == 4 {
        '4'
    } else if d == 5 {
        '5'
    } else if d == 6 {
        '6'
    } else if d == 7 {
        '7'
    } else if d == 8 {
        '8'
    } else {
        '9'
    }
}

/// `n` in decimal, without leading zeros.
pub open spec fn decimal(n: nat) -> Seq<char>
    decreases n,
{
    if n < 10 {
        seq![digit(n)]
    } else {
        decimal(n / 10).push(digit(n % 10))
    }
}

/// What every variable name begins with.
pub open spec fn prefix() -> Seq<char> {
    seq!['t', 'y', 'p', 'e', '_', 'i', 'd', '_']
}

/// The name of the variable `var`.
pub open spec fn name_of(var: TypeVar) -> Seq<char> {
    prefix() + decimal(var.variant_idx as nat) + seq!['_'] + decimal(var.field_idx as nat)
}

/// A number in decimal is not empty and is made of decimal digits.
pub proof fn lemma_decimal_digits(n: nat)
    ensures
        decimal(n).len() >= 1,
        forall|i: int| 0 <= i < decimal(n).len() ==> is_digit(#[trigger] decimal(n)[i]),
    decreases n,
{
    if n >= 10 {
        lemma_decimal_digits(n / 10);
        assert(is_digit(digit(n % 10)));
        assert forall|i: int| 0 <= i < decimal(n).len() implies is_digit(
            #[trigger] decimal(n)[i],
        ) by {
            if i < decimal(n / 10).len() {
                assert(decimal(n)[i] == decimal(n / 10)[i]);
            }
        }
    } else {
        assert(is_digit(digit(n)));
    }
}

/// Different digits have different characters.
pub proof fn lemma_digit_injective(a: nat, b: nat)
    requires
        a < 10,
        b < 10,
        digit(a) == digit(b),
    ensures
        a == b,
{
}

/// Different numbers differ in decimal.
pub proof fn lemma_decimal_injective(a: nat, b: nat)
    requires
        decimal(a) == decimal(b),
    ensures
        a == b,
    decreases a,
{
    lemma_decimal_digits(a / 10);
    lemma_decimal_digits(b / 10);
    if a < 10 && b < 10 {
        assert(decimal(a)[0] == digit(a));
        assert(decimal(b)[0] == digit(b));
        lemma_digit_injective(a, b);
    } else if a >= 10 && b >= 10 {
        assert(decimal(a).drop_last() =~= decimal(a / 10));
        assert(decimal(b).drop_last() =~= decimal(b / 10));
        assert(decimal(a).last() == digit(a % 10));
        assert(decimal(b).last() == digit(b % 10));
        lemma_decimal_injective(a / 10, b / 10);
        lemma_digit_injective(a % 10, b % 10);
    } else {
        assert(decimal(a).len() != decimal(b).len());
    }
}

/// Different variables have different names.
pub proof fn law_names_are_distinct(a: TypeVar, b: TypeVar)
    requires
        name_of(a) == name_of(b),
    ensures
        a == b,
{
    let av = decimal(a.variant_idx as nat);
    let bv = decimal(b.variant_idx as nat);
    let af = decimal(a.field_idx as nat);
    let bf = decimal(b.field_idx as nat);
    lemma_decimal_digits(a.variant_idx as nat);
    lemma_decimal_digits(b.variant_idx as nat);
    lemma_decimal_digits(a.field_idx as nat);
    lemma_decimal_digits(b.field_idx as nat);
    let left = name_of(a);
    let right = name_of(b);
    assert(left.len() == 8 + av.len() + 1 + af.len());
    assert(right.len() == 8 + bv.len() + 1 + bf.len());
    if av.len() < bv.len() {
        assert(left[8 + av.len() as int] == '_');
        assert(right[8 + av.len() as int] == bv[av.len() as int]);
        assert(is_digit(bv[av.len() as int]));
        assert(false);
    }
    if bv.len() < av.len() {
        assert(right[8 + bv.len() as int] == '_');
        assert(left[8 + bv.len() as int] == av[bv.len() as int]);
        assert(is_digit(av[bv.len() as int]));
        assert(false);
    }
    assert(av =~= bv) by {
        assert forall|i: int| 0 <= i < av.len() implies av[i] == bv[i] by {
            assert(left[8 + i] == av[i]);
            assert(right[8 + i] == bv[i]);
        }
    }
    assert(af =~= bf) by {
        assert forall|i: int| 0 <= i < af.len() implies af[i] == bf[i] by {
            assert(left[8 + av.len() + 1 + i] == af[i]);
            assert(right[8 + bv.len() + 1 + i] == bf[i]);
        }
    }
    lemma_decimal_injective(a.variant_idx as nat, b.variant_idx as nat);
    lemma_decimal_injective(a.field_idx as nat, b.field_idx as nat);
}

fn digit_str(d: usize) -> (text: &'static str)
    requires
        d < 10,
    ensures
        text@ == seq![digit(d as nat)],
{
    proof {
        reveal_strlit("0");
        reveal_strlit("1");
        reveal_strlit("2");
        reveal_strlit("3");
        reveal_strlit("4");
        reveal_strlit("5");
        reveal_strlit("6");
        reveal_strlit("7");
        reveal_strlit("8");
        reveal_strlit("9");
    }
    let text = if d == 0 {
        "0"
    } else if d == 1 {
        "1"
    } else if d == 2 {
        "2"
    } else if d == 3 {
        "3"
    } else if d == 4 {
        "4"
    } else if d == 5 {
        "5"
    } else if d == 6 {
        "6"
    } else if d == 7 {
        "7"
    } else if d == 8 {
        "8"
    } else {
        "9"
    };
    proof {
        assert(text@ =~= seq![digit(d as nat)]);
    }
    text
}

/// Writes `n` in decimal.
pub fn to_decimal(n: usize) -> (text: String)
    ensures
        text@ == decimal(n as nat),
    decreases n,
{
    if n < 10 {
        digit_str(n).to_owned()
    } else {
        let text = to_decimal(n / 10).concat(digit_str(n % 10));
        proof {
            assert(text@ =~= decimal((n / 10) as nat).push(digit((n % 10) as nat)));
        }
        text
    }
}

/// The name of every variable is a plain identifier.
pub proof fn law_names_are_identifiers(var: TypeVar)
    ensures
        is_plain_identifier(name_of(var)),
{
    let name = name_of(var);
    let variant = decimal(var.variant_idx as nat);
    let field = decimal(var.field_idx as nat);
    lemma_decimal_digits(var.variant_idx as nat);
    lemma_decimal_digits(var.field_idx as nat);
    assert(name[0] == 't');
    assert forall|i: int| 0 <= i < name.len() implies is_letter(#[trigger] name[i]) || is_digit(
        name[i],
    ) || name[i] == '_' by {
        if i < 8 {
            assert(name[i] == prefix()[i]);
        } else if i < 8 + variant.len() {
            assert(name[i] == variant[i - 8]);
        } else if i == 8 + variant.len() {
            assert(name[i] == '_');
        } else {
            assert(name[i] == field[i - 8 - variant.len() - 1]);
        }
    }
}

impl TypeVar {
    /// The identifier of this variable: it is written as the variable's
    /// name, and stands at the call site.
    pub fn ident(&self) -> (ident: Ident)
        ensures
            ident_text(ident) == name_of(*self),
    {
        proof {
            law_names_are_identifiers(*self);
        }
        Ident::new(self.name().as_str(), Span::call_site())
    }

    /// The name of this variable.
    pub fn name(&self) -> (name: String)
        ensures
            name@ == name_of(*self),
    {
        proof {
            reveal_strlit("type_id_");
            reveal_strlit("_");
            assert("type_id_"@ =~= prefix());
            assert("_"@ =~= seq!['_']);
        }
        let variant = to_decimal(self.variant_idx);
        let field = to_decimal(self.field_idx);
        "type_id_".to_owned().concat(variant.as_str()).concat("_").concat(field.as_str())
    }
}

} // verus!
