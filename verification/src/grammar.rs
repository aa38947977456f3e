use vstd::prelude::*;
use vstd::string::StrSliceExecFns;
use crate::expression::{ArithmeticExpression, BooleanExpression};
use crate::modules::{
    Module, ModuleAnnotation, ModuleSignature, ModuleTemplate, ModulePattern, ModuleView,
    PatternView, Rule, RuleView, SignatureView, TemplateView,
};
use crate::value::{Value, MAX_MAG, SCALE};

verus! {

// ---------------------------------------------------------------------
// Character classes
// ---------------------------------------------------------------------

/// Whitespace inside a line: rules are separated by bare newlines.
pub open spec fn is_space_char(c: char) -> bool {
    c == ' ' || c == '\t'
}

/// A decimal digit.
pub open spec fn is_digit_char(c: char) -> bool {
    '0' <= c && c <= '9'
}

/// A parameter name: a single lowercase letter.
pub open spec fn is_lowercase_char(c: char) -> bool {
    'a' <= c && c <= 'z'
}

/// A module identifier: letters, digits, and the punctuation reserved for
/// turtle-command mnemonics.
pub open spec fn is_identifier_char(c: char) -> bool {
    ||| ('a' <= c && c <= 'z')
    ||| ('A' <= c && c <= 'Z')
    ||| ('0' <= c && c <= '9')
    ||| c == '!'
    ||| c == '^'
    ||| c == '+'
    ||| c == '\''
    ||| c == '-'
    ||| c == '['
    ||| c == ']'
    ||| c == '\\'
    ||| c == '/'
    ||| c == '|'
    ||| c == '#'
    ||| c == '&'
    ||| c == '{'
    ||| c == '}'
    ||| c == '.'
}

/// The numeric value of a digit character.
pub open spec fn digit_val(c: char) -> int {
    c as int - '0' as int
}

// ---------------------------------------------------------------------
// Whitespace and digit runs
// ---------------------------------------------------------------------

/// The first position at or after `i` that does not hold line whitespace.
pub open spec fn spec_skip_ws(s: Seq<char>, i: int) -> int
    decreases s.len() - i,
{
    if 0 <= i < s.len() && is_space_char(s[i]) {
        spec_skip_ws(s, i + 1)
    } else {
        i
    }
}

/// The first position at or after `i` that does not hold a digit.
pub open spec fn spec_digits_end(s: Seq<char>, i: int) -> int
    decreases s.len() - i,
{
    if 0 <= i < s.len() && is_digit_char(s[i]) {
        spec_digits_end(s, i + 1)
    } else {
        i
    }
}

/// A digit run stays between the start and the end of the input, and every
/// position inside it holds a digit.
pub proof fn lemma_digits_end_bounds(s: Seq<char>, i: int)
    requires
        0 <= i <= s.len(),
    ensures
        i <= spec_digits_end(s, i) <= s.len(),
        forall|k: int| i <= k < spec_digits_end(s, i) ==> is_digit_char(#[trigger] s[k]),
    decreases s.len() - i,
{
    if i < s.len() && is_digit_char(s[i]) {
        lemma_digits_end_bounds(s, i + 1);
    }
}

/// The value of the digit run `s[i..j)`, read as a decimal numeral.
pub open spec fn spec_digits_val(s: Seq<char>, i: int, j: int) -> int
    decreases j - i,
{
    if j <= i {
        0
    } else {
        spec_digits_val(s, i, j - 1) * 10 + digit_val(s[j - 1])
    }
}

/// Powers of ten.
pub open spec fn pow10(k: nat) -> int
    decreases k,
{
    if k == 0 {
        1
    } else {
        10 * pow10((k - 1) as nat)
    }
}

/// A numeral's value is non-negative, below ten to its width, and grows
/// with its width.
pub proof fn lemma_digits_val_bounds(s: Seq<char>, i: int, j: int)
    requires
        i <= j,
        forall|k: int| i <= k < j ==> is_digit_char(#[trigger] s[k]),
    ensures
        0 <= spec_digits_val(s, i, j) < pow10((j - i) as nat),
        forall|m: int|
            i <= m <= j ==> #[trigger] spec_digits_val(s, i, m) <= spec_digits_val(s, i, j),
    decreases j - i,
{
    if j > i {
        lemma_digits_val_bounds(s, i, j - 1);
        assert(spec_digits_val(s, i, j) >= spec_digits_val(s, i, j - 1)) by {
            assert(spec_digits_val(s, i, j - 1) >= 0);
            assert(digit_val(s[j - 1]) >= 0);
        }
        assert(spec_digits_val(s, i, j) < pow10((j - i) as nat)) by {
            assert(spec_digits_val(s, i, j - 1) <= pow10((j - 1 - i) as nat) - 1);
            assert(pow10((j - i) as nat) == 10 * pow10((j - 1 - i) as nat));
        }
    }
}

/// The fixed-point unit count of a fraction: the first six digits of the
/// run `s[i..j)`, padded with zeros on the right to six places.
pub open spec fn spec_frac_units(s: Seq<char>, i: int, j: int) -> int {
    if j - i <= 6 {
        spec_digits_val(s, i, j) * pow10((6 - (j - i)) as nat)
    } else {
        spec_digits_val(s, i, i + 6)
    }
}

// ---------------------------------------------------------------------
// Numbers
// ---------------------------------------------------------------------

/// Parse a numeric literal: an optional sign, an integer digit run, and an
/// optional fraction of at least one digit. A literal whose value leaves
/// the representable range does not parse.
pub open spec fn spec_parse_number(s: Seq<char>, i: int) -> Option<(Value, int)> {
    let (neg, i1) = if 0 <= i < s.len() && (s[i] == '+' || s[i] == '-') {
        (s[i] == '-', i + 1)
    } else {
        (false, i)
    };
    let j = spec_digits_end(s, i1);
    if j == i1 {
        None
    } else {
        let whole = spec_digits_val(s, i1, j);
        let (frac, end) = if j < s.len() && s[j] == '.' && spec_digits_end(s, j + 1) > j + 1 {
            (spec_frac_units(s, j + 1, spec_digits_end(s, j + 1)), spec_digits_end(s, j + 1))
        } else {
            (0, j)
        };
        let units = whole * (SCALE as int) + frac;
        if units > MAX_MAG as int {
            None
        } else {
            Some((Value::of_int(if neg { -units } else { units }), end))
        }
    }
}

// ---------------------------------------------------------------------
// Arithmetic expressions
// ---------------------------------------------------------------------

/// An atom of the arithmetic grammar: a numeric literal, a parameter name,
/// or a parenthesized subexpression.
pub open spec fn spec_parse_atom(s: Seq<char>, i: int) -> Option<(ArithmeticExpression, int)>
    decreases s.len() - i, 2int,
{
    match spec_parse_number(s, i) {
        Some((v, j)) => Some((ArithmeticExpression::Const(v), j)),
        None => if 0 <= i < s.len() && is_lowercase_char(s[i]) {
            Some((ArithmeticExpression::Param(s[i]), i + 1))
        } else if 0 <= i < s.len() && s[i] == '(' {
            let p = spec_skip_ws(s, i + 1);
            if i < p <= s.len() {
                match spec_parse_arith(s, p) {
                    Some((e, j)) => {
                        let q = spec_skip_ws(s, j);
                        if 0 <= q < s.len() && s[q] == ')' {
                            Some((e, q + 1))
                        } else {
                            None
                        }
                    },
                    None => None,
                }
            } else {
                None
            }
        } else {
            None
        },
    }
}

/// A possibly negated atom; negation may be stacked.
pub open spec fn spec_parse_unary(s: Seq<char>, i: int) -> Option<(ArithmeticExpression, int)>
    decreases s.len() - i, 3int,
{
    if 0 <= i < s.len() && s[i] == '-' {
        match spec_parse_unary(s, i + 1) {
            Some((e, j)) => Some((ArithmeticExpression::Neg(Box::new(e)), j)),
            None => None,
        }
    } else {
        spec_parse_atom(s, i)
    }
}

/// A power chain; exponentiation is right-associative.
pub open spec fn spec_parse_power(s: Seq<char>, i: int) -> Option<(ArithmeticExpression, int)>
    decreases s.len() - i, 4int,
{
    match spec_parse_unary(s, i) {
        None => None,
        Some((base, j)) => {
            let p = spec_skip_ws(s, j);
            if 0 <= p < s.len() && s[p] == '^' {
                let q = spec_skip_ws(s, p + 1);
                if i < q <= s.len() {
                    match spec_parse_power(s, q) {
                        Some((e, k)) => Some(
                            (ArithmeticExpression::Pow(Box::new(base), Box::new(e)), k),
                        ),
                        None => Some((base, j)),
                    }
                } else {
                    Some((base, j))
                }
            } else {
                Some((base, j))
            }
        },
    }
}

/// The multiplications and divisions following a first factor; they
/// associate to the left.
pub open spec fn spec_parse_term_more(s: Seq<char>, acc: ArithmeticExpression, i: int) -> (
    ArithmeticExpression,
    int,
)
    decreases s.len() - i, 5int,
{
    let p = spec_skip_ws(s, i);
    if 0 <= p < s.len() && (s[p] == '*' || s[p] == '/') {
        let q = spec_skip_ws(s, p + 1);
        if i < q <= s.len() {
            match spec_parse_power(s, q) {
                Some((f, j)) => if i < j <= s.len() {
                    let node = if s[p] == '*' {
                        ArithmeticExpression::Mul(Box::new(acc), Box::new(f))
                    } else {
                        ArithmeticExpression::Div(Box::new(acc), Box::new(f))
                    };
                    spec_parse_term_more(s, node, j)
                } else {
                    (acc, i)
                },
                None => (acc, i),
            }
        } else {
            (acc, i)
        }
    } else {
        (acc, i)
    }
}

/// A product of powers.
pub open spec fn spec_parse_term(s: Seq<char>, i: int) -> Option<(ArithmeticExpression, int)>
    decreases s.len() - i, 6int,
{
    match spec_parse_power(s, i) {
        None => None,
        Some((f, j)) => if i <= j <= s.len() {
            Some(spec_parse_term_more(s, f, j))
        } else {
            Some((f, j))
        },
    }
}

/// The additions and subtractions following a first term; they associate
/// to the left.
pub open spec fn spec_parse_arith_more(s: Seq<char>, acc: ArithmeticExpression, i: int) -> (
    ArithmeticExpression,
    int,
)
    decreases s.len() - i, 7int,
{
    let p = spec_skip_ws(s, i);
    if 0 <= p < s.len() && (s[p] == '+' || s[p] == '-') {
        let q = spec_skip_ws(s, p + 1);
        if i < q <= s.len() {
            match spec_parse_term(s, q) {
                Some((t, j)) => if i < j <= s.len() {
                    let node = if s[p] == '+' {
                        ArithmeticExpression::Add(Box::new(acc), Box::new(t))
                    } else {
                        ArithmeticExpression::Sub(Box::new(acc), Box::new(t))
                    };
                    spec_parse_arith_more(s, node, j)
                } else {
                    (acc, i)
                },
                None => (acc, i),
            }
        } else {
            (acc, i)
        }
    } else {
        (acc, i)
    }
}

/// A full arithmetic expression: a sum of terms.
pub open spec fn spec_parse_arith(s: Seq<char>, i: int) -> Option<(ArithmeticExpression, int)>
    decreases s.len() - i, 8int,
{
    match spec_parse_term(s, i) {
        None => None,
        Some((t, j)) => if i <= j <= s.len() {
            Some(spec_parse_arith_more(s, t, j))
        } else {
            Some((t, j))
        },
    }
}

// ---------------------------------------------------------------------
// Boolean expressions
// ---------------------------------------------------------------------

/// A boolean constant: the words `true` and `false`, or `*` for an
/// always-true guard.
pub open spec fn spec_parse_bool_const(s: Seq<char>, i: int) -> Option<(BooleanExpression, int)> {
    if 0 <= i && i + 4 <= s.len() && s[i] == 't' && s[i + 1] == 'r' && s[i + 2] == 'u' && s[i + 3]
        == 'e' {
        Some((BooleanExpression::Const(true), i + 4))
    } else if 0 <= i && i + 5 <= s.len() && s[i] == 'f' && s[i + 1] == 'a' && s[i + 2] == 'l' && s[
        i + 3] == 's' && s[i + 4] == 'e' {
        Some((BooleanExpression::Const(false), i + 5))
    } else if 0 <= i < s.len() && s[i] == '*' {
        Some((BooleanExpression::Const(true), i + 1))
    } else {
        None
    }
}

/// A comparison of two arithmetic expressions.
pub open spec fn spec_parse_cmp(s: Seq<char>, i: int) -> Option<(BooleanExpression, int)>
    decreases s.len() - i, 9int,
{
    match spec_parse_arith(s, i) {
        None => None,
        Some((l, j)) => {
            let p = spec_skip_ws(s, j);
            let op: Option<(int, int)> = if 0 <= p && p + 2 <= s.len() && s[p] == '<' && s[p + 1]
                == '=' {
                Some((1, p + 2))
            } else if 0 <= p && p + 2 <= s.len() && s[p] == '>' && s[p + 1] == '=' {
                Some((3, p + 2))
            } else if 0 <= p && p + 2 <= s.len() && s[p] == '=' && s[p + 1] == '=' {
                Some((4, p + 2))
            } else if 0 <= p < s.len() && s[p] == '<' {
                Some((0, p + 1))
            } else if 0 <= p < s.len() && s[p] == '>' {
                Some((2, p + 1))
            } else {
                None
            };
            match op {
                None => None,
                Some((kind, after)) => {
                    let q = spec_skip_ws(s, after);
                    if i < q <= s.len() {
                        match spec_parse_arith(s, q) {
                            None => None,
                            Some((r, k)) => Some(
                                (
                                    if kind == 0 {
                                        BooleanExpression::Lth(Box::new(l), Box::new(r))
                                    } else if kind == 1 {
                                        BooleanExpression::Leq(Box::new(l), Box::new(r))
                                    } else if kind == 2 {
                                        BooleanExpression::Gth(Box::new(l), Box::new(r))
                                    } else if kind == 3 {
                                        BooleanExpression::Geq(Box::new(l), Box::new(r))
                                    } else {
                                        BooleanExpression::Eq(Box::new(l), Box::new(r))
                                    },
                                    k,
                                ),
                            ),
                        }
                    } else {
                        None
                    }
                },
            }
        },
    }
}

/// The operand of a negation: a parenthesized boolean, another negation,
/// or a constant.
pub open spec fn spec_parse_bool_neg_operand(s: Seq<char>, i: int) -> Option<
    (BooleanExpression, int),
>
    decreases s.len() - i, 10int,
{
    if 0 <= i < s.len() && s[i] == '(' {
        let p = spec_skip_ws(s, i + 1);
        if i < p <= s.len() {
            match spec_parse_bool_or(s, p) {
                Some((b, j)) => {
                    let q = spec_skip_ws(s, j);
                    if 0 <= q < s.len() && s[q] == ')' {
                        Some((b, q + 1))
                    } else {
                        None
                    }
                },
                None => None,
            }
        } else {
            None
        }
    } else if 0 <= i < s.len() && s[i] == '!' {
        match spec_parse_bool_neg_operand(s, i + 1) {
            Some((b, j)) => Some((BooleanExpression::Not(Box::new(b)), j)),
            None => None,
        }
    } else {
        spec_parse_bool_const(s, i)
    }
}

/// A primary boolean: a parenthesized boolean, a comparison, a negation,
/// or a constant, tried in that order.
pub open spec fn spec_parse_bool_primary(s: Seq<char>, i: int) -> Option<(BooleanExpression, int)>
    decreases s.len() - i, 11int,
{
    let paren: Option<(BooleanExpression, int)> = if 0 <= i < s.len() && s[i] == '(' {
        let p = spec_skip_ws(s, i + 1);
        if i < p <= s.len() {
            match spec_parse_bool_or(s, p) {
                Some((b, j)) => {
                    let q = spec_skip_ws(s, j);
                    if 0 <= q < s.len() && s[q] == ')' {
                        Some((b, q + 1))
                    } else {
                        None
                    }
                },
                None => None,
            }
        } else {
            None
        }
    } else {
        None
    };
    match paren {
        Some(r) => Some(r),
        None => match spec_parse_cmp(s, i) {
            Some(r) => Some(r),
            None => if 0 <= i < s.len() && s[i] == '!' {
                match spec_parse_bool_neg_operand(s, i + 1) {
                    Some((b, j)) => Some((BooleanExpression::Not(Box::new(b)), j)),
                    None => None,
                }
            } else {
                spec_parse_bool_const(s, i)
            },
        },
    }
}

/// The conjunctions following a first primary.
pub open spec fn spec_parse_bool_and_more(s: Seq<char>, acc: BooleanExpression, i: int) -> (
    BooleanExpression,
    int,
)
    decreases s.len() - i, 12int,
{
    let p = spec_skip_ws(s, i);
    if 0 <= p && p + 2 <= s.len() && s[p] == '&' && s[p + 1] == '&' {
        let q = spec_skip_ws(s, p + 2);
        if i < q <= s.len() {
            match spec_parse_bool_primary(s, q) {
                Some((b, j)) => if i < j <= s.len() {
                    spec_parse_bool_and_more(
                        s,
                        BooleanExpression::And(Box::new(acc), Box::new(b)),
                        j,
                    )
                } else {
                    (acc, i)
                },
                None => (acc, i),
            }
        } else {
            (acc, i)
        }
    } else {
        (acc, i)
    }
}

/// A conjunction of primaries.
pub open spec fn spec_parse_bool_and(s: Seq<char>, i: int) -> Option<(BooleanExpression, int)>
    decreases s.len() - i, 13int,
{
    match spec_parse_bool_primary(s, i) {
        None => None,
        Some((b, j)) => if i <= j <= s.len() {
            Some(spec_parse_bool_and_more(s, b, j))
        } else {
            Some((b, j))
        },
    }
}

/// The disjunctions following a first conjunction.
pub open spec fn spec_parse_bool_or_more(s: Seq<char>, acc: BooleanExpression, i: int) -> (
    BooleanExpression,
    int,
)
    decreases s.len() - i, 14int,
{
    let p = spec_skip_ws(s, i);
    if 0 <= p && p + 2 <= s.len() && s[p] == '|' && s[p + 1] == '|' {
        let q = spec_skip_ws(s, p + 2);
        if i < q <= s.len() {
            match spec_parse_bool_and(s, q) {
                Some((b, j)) => if i < j <= s.len() {
                    spec_parse_bool_or_more(s, BooleanExpression::Or(Box::new(acc), Box::new(b)), j)
                } else {
                    (acc, i)
                },
                None => (acc, i),
            }
        } else {
            (acc, i)
        }
    } else {
        (acc, i)
    }
}

/// A full boolean expression: a disjunction of conjunctions.
pub open spec fn spec_parse_bool_expr(s: Seq<char>, i: int) -> Option<(BooleanExpression, int)>
    decreases s.len() - i, 15int,
{
    match spec_parse_bool_and(s, i) {
        None => None,
        Some((b, j)) => if i <= j <= s.len() {
            Some(spec_parse_bool_or_more(s, b, j))
        } else {
            Some((b, j))
        },
    }
}

/// A full boolean expression, the entry point that parenthesized
/// subexpressions return into.
pub open spec fn spec_parse_bool_or(s: Seq<char>, i: int) -> Option<(BooleanExpression, int)>
    decreases s.len() - i, 16int,
{
    spec_parse_bool_expr(s, i)
}

// ---------------------------------------------------------------------
// Signatures, templates, modules
// ---------------------------------------------------------------------

/// An optional annotation marker in front of a module or template.
pub open spec fn spec_parse_annotation(s: Seq<char>, i: int) -> (Option<ModuleAnnotation>, int) {
    if 0 <= i < s.len() && s[i] == '~' {
        (Some(ModuleAnnotation::CreatePatch), i + 1)
    } else {
        (None, i)
    }
}

/// The parameter names following a first one, each preceded by a comma;
/// whitespace is allowed around the commas.
pub open spec fn spec_parse_params_more(s: Seq<char>, acc: Seq<char>, i: int) -> (Seq<char>, int)
    decreases s.len() - i,
{
    let p = spec_skip_ws(s, i);
    if 0 <= p < s.len() && s[p] == ',' {
        let q = spec_skip_ws(s, p + 1);
        if i < q < s.len() && is_lowercase_char(s[q]) {
            spec_parse_params_more(s, acc.push(s[q]), q + 1)
        } else {
            (acc, i)
        }
    } else {
        (acc, i)
    }
}

/// A possibly empty comma-separated list of parameter names.
pub open spec fn spec_parse_params(s: Seq<char>, i: int) -> (Seq<char>, int) {
    if 0 <= i < s.len() && is_lowercase_char(s[i]) {
        spec_parse_params_more(s, seq![s[i]], i + 1)
    } else {
        (Seq::empty(), i)
    }
}

/// A module signature: an identifier, optionally followed by parenthesized
/// parameter names. A malformed parameter list falls back to the bare
/// identifier.
pub open spec fn spec_parse_signature(s: Seq<char>, i: int) -> Option<(SignatureView, int)> {
    if 0 <= i < s.len() && is_identifier_char(s[i]) {
        let id = s[i];
        let simple = SignatureView { identifier: id, parameters: Seq::empty() };
        if i + 1 < s.len() && s[i + 1] == '(' {
            let (ps, j) = spec_parse_params(s, spec_skip_ws(s, i + 2));
            let q = spec_skip_ws(s, j);
            if 0 <= q < s.len() && s[q] == ')' {
                Some((SignatureView { identifier: id, parameters: ps }, q + 1))
            } else {
                Some((simple, i + 1))
            }
        } else {
            Some((simple, i + 1))
        }
    } else {
        None
    }
}

/// The argument expressions following a first one, each preceded by a
/// bare comma.
pub open spec fn spec_parse_args_more(
    s: Seq<char>,
    acc: Seq<ArithmeticExpression>,
    i: int,
) -> (Seq<ArithmeticExpression>, int)
    decreases s.len() - i, 17int,
{
    if 0 <= i < s.len() && s[i] == ',' {
        match spec_parse_arith(s, i + 1) {
            Some((e, j)) => if i < j <= s.len() {
                spec_parse_args_more(s, acc.push(e), j)
            } else {
                (acc, i)
            },
            None => (acc, i),
        }
    } else {
        (acc, i)
    }
}

/// A possibly empty comma-separated list of argument expressions.
pub open spec fn spec_parse_args(s: Seq<char>, i: int) -> (Seq<ArithmeticExpression>, int) {
    match spec_parse_arith(s, i) {
        Some((e, j)) => if i <= j <= s.len() {
            spec_parse_args_more(s, seq![e], j)
        } else {
            (seq![e], j)
        },
        None => (Seq::empty(), i),
    }
}

/// The numeric literals following a first one, each preceded by a bare
/// comma.
pub open spec fn spec_parse_nums_more(s: Seq<char>, acc: Seq<Value>, i: int) -> (Seq<Value>, int)
    decreases s.len() - i,
{
    if 0 <= i < s.len() && s[i] == ',' {
        match spec_parse_number(s, i + 1) {
            Some((v, j)) => if i < j <= s.len() {
                spec_parse_nums_more(s, acc.push(v), j)
            } else {
                (acc, i)
            },
            None => (acc, i),
        }
    } else {
        (acc, i)
    }
}

/// A possibly empty comma-separated list of numeric literals.
pub open spec fn spec_parse_nums(s: Seq<char>, i: int) -> (Seq<Value>, int) {
    match spec_parse_number(s, i) {
        Some((v, j)) => if i <= j <= s.len() {
            spec_parse_nums_more(s, seq![v], j)
        } else {
            (seq![v], j)
        },
        None => (Seq::empty(), i),
    }
}

/// A module template: an optional annotation, an identifier, and an
/// optional parenthesized list of argument expressions. A malformed
/// argument list falls back to the bare identifier.
pub open spec fn spec_parse_template(s: Seq<char>, i: int) -> Option<(TemplateView, int)> {
    let (ann, i1) = spec_parse_annotation(s, i);
    if 0 <= i1 < s.len() && is_identifier_char(s[i1]) {
        let id = s[i1];
        let simple = TemplateView {
            identifier: id,
            parameter_expressions: Seq::empty(),
            annotation: ann,
        };
        if i1 + 1 < s.len() && s[i1 + 1] == '(' {
            let (es, j) = spec_parse_args(s, i1 + 2);
            if 0 <= j < s.len() && s[j] == ')' {
                Some(
                    (
                        TemplateView { identifier: id, parameter_expressions: es, annotation: ann },
                        j + 1,
                    ),
                )
            } else {
                Some((simple, i1 + 1))
            }
        } else {
            Some((simple, i1 + 1))
        }
    } else {
        None
    }
}

/// A module: an optional annotation, an identifier, and an optional
/// parenthesized list of numeric literals. A malformed value list falls
/// back to the bare identifier.
pub open spec fn spec_parse_module(s: Seq<char>, i: int) -> Option<(ModuleView, int)> {
    let (ann, i1) = spec_parse_annotation(s, i);
    if 0 <= i1 < s.len() && is_identifier_char(s[i1]) {
        let id = s[i1];
        let simple = ModuleView { identifier: id, parameter_values: Seq::empty(), annotation: ann };
        if i1 + 1 < s.len() && s[i1 + 1] == '(' {
            let (vs, j) = spec_parse_nums(s, i1 + 2);
            if 0 <= j < s.len() && s[j] == ')' {
                Some((ModuleView { identifier: id, parameter_values: vs, annotation: ann }, j + 1))
            } else {
                Some((simple, i1 + 1))
            }
        } else {
            Some((simple, i1 + 1))
        }
    } else {
        None
    }
}

// ---------------------------------------------------------------------
// Patterns, rules, and rule lists
// ---------------------------------------------------------------------

/// A module pattern: an optional left-context signature before `<`, the
/// center signature, an optional right-context signature after `>`, and
/// an optional guard condition after `:` that defaults to true.
pub open spec fn spec_parse_pattern(s: Seq<char>, i: int) -> Option<(PatternView, int)> {
    let (left, pos0) = match spec_parse_signature(s, i) {
        Some((ls, j)) => {
            let p = spec_skip_ws(s, j);
            if 0 <= p < s.len() && s[p] == '<' {
                (Some(ls), spec_skip_ws(s, p + 1))
            } else {
                (None, i)
            }
        },
        None => (None, i),
    };
    match spec_parse_signature(s, pos0) {
        None => None,
        Some((center, j1)) => {
            let (right, pos1) = {
                let p = spec_skip_ws(s, j1);
                if 0 <= p < s.len() && s[p] == '>' {
                    match spec_parse_signature(s, spec_skip_ws(s, p + 1)) {
                        Some((rs, j2)) => (Some(rs), j2),
                        None => (None, j1),
                    }
                } else {
                    (None, j1)
                }
            };
            let (cond, pos2) = {
                let p = spec_skip_ws(s, pos1);
                if 0 <= p < s.len() && s[p] == ':' {
                    match spec_parse_bool_expr(s, spec_skip_ws(s, p + 1)) {
                        Some((b, j3)) => (b, j3),
                        None => (BooleanExpression::Const(true), pos1),
                    }
                } else {
                    (BooleanExpression::Const(true), pos1)
                }
            };
            Some(
                (
                    PatternView {
                        match_left: left,
                        match_center: center,
                        match_right: right,
                        condition: cond,
                    },
                    pos2,
                ),
            )
        },
    }
}

/// The probability a rule is declared with when none is written: the
/// negative sentinel that marks the rule deterministic.
pub open spec fn spec_default_probability() -> Value {
    Value::of_int(-(SCALE as int))
}

/// The templates of a rule's right side: a whitespace-separated run.
pub open spec fn spec_parse_template_entries(
    s: Seq<char>,
    acc: Seq<TemplateView>,
    i: int,
) -> (Seq<TemplateView>, int)
    decreases s.len() - i, 20int,
{
    let p = spec_skip_ws(s, i);
    if i <= p <= s.len() {
        match spec_parse_template(s, p) {
            Some((t, j)) => if i < j <= s.len() {
                let q = spec_skip_ws(s, j);
                if j <= q <= s.len() {
                    spec_parse_template_entries(s, acc.push(t), q)
                } else {
                    spec_parse_template_entries(s, acc.push(t), j)
                }
            } else {
                (acc, i)
            },
            None => (acc, i),
        }
    } else {
        (acc, i)
    }
}

/// One rule: a pattern, an optional probability after `:`, the arrow, and
/// the replacement templates.
pub open spec fn spec_parse_rule(s: Seq<char>, i: int) -> Option<(RuleView, int)> {
    match spec_parse_pattern(s, i) {
        None => None,
        Some((pat, j)) => {
            let a = spec_skip_ws(s, j);
            let (prob, pos1) = if 0 <= a < s.len() && s[a] == ':' {
                match spec_parse_number(s, spec_skip_ws(s, a + 1)) {
                    Some((v, b)) => (v, b),
                    None => (spec_default_probability(), a),
                }
            } else {
                (spec_default_probability(), a)
            };
            let d = spec_skip_ws(s, pos1);
            if 0 <= d && d + 2 <= s.len() && s[d] == '-' && s[d + 1] == '>' {
                let e = spec_skip_ws(s, d + 2);
                let (ts, end) = if d + 2 <= e <= s.len() {
                    spec_parse_template_entries(s, Seq::empty(), e)
                } else {
                    (Seq::empty(), e)
                };
                Some((RuleView { pattern: pat, right_side: ts, probability: prob }, end))
            } else {
                None
            }
        },
    }
}

/// The modules of a module string: a whitespace-separated run.
pub open spec fn spec_parse_module_entries(
    s: Seq<char>,
    acc: Seq<ModuleView>,
    i: int,
) -> (Seq<ModuleView>, int)
    decreases s.len() - i,
{
    let p = spec_skip_ws(s, i);
    if i <= p <= s.len() {
        match spec_parse_module(s, p) {
            Some((m, j)) => if i < j <= s.len() {
                let q = spec_skip_ws(s, j);
                if j <= q <= s.len() {
                    spec_parse_module_entries(s, acc.push(m), q)
                } else {
                    spec_parse_module_entries(s, acc.push(m), j)
                }
            } else {
                (acc, i)
            },
            None => (acc, i),
        }
    } else {
        (acc, i)
    }
}

/// Rule separators: any run of newlines with surrounding line whitespace.
pub open spec fn spec_skip_newlines(s: Seq<char>, i: int) -> int
    decreases s.len() - i,
{
    let p = spec_skip_ws(s, i);
    if 0 <= p < s.len() && s[p] == '\n' {
        let q = spec_skip_ws(s, p + 1);
        if i < q <= s.len() {
            spec_skip_newlines(s, q)
        } else {
            p + 1
        }
    } else {
        i
    }
}

/// The rules following a first one, each preceded by a newline separator.
pub open spec fn spec_parse_rules_more(s: Seq<char>, acc: Seq<RuleView>, i: int) -> (
    Seq<RuleView>,
    int,
)
    decreases s.len() - i, 21int,
{
    let j = spec_skip_newlines(s, i);
    if i <= j <= s.len() {
        match spec_parse_rule(s, j) {
            Some((r, k)) => if i < k <= s.len() {
                spec_parse_rules_more(s, acc.push(r), k)
            } else {
                (acc, i)
            },
            None => (acc, i),
        }
    } else {
        (acc, i)
    }
}

// ---------------------------------------------------------------------
// Whole-input parses
// ---------------------------------------------------------------------

/// A whole input as one boolean expression.
pub open spec fn spec_boolean_expr(s: Seq<char>) -> Option<BooleanExpression> {
    match spec_parse_bool_expr(s, 0) {
        Some((b, j)) => if j == s.len() {
            Some(b)
        } else {
            None
        },
        None => None,
    }
}

/// A whole input as one module template.
pub open spec fn spec_template(s: Seq<char>) -> Option<TemplateView> {
    match spec_parse_template(s, 0) {
        Some((t, j)) => if j == s.len() {
            Some(t)
        } else {
            None
        },
        None => None,
    }
}

/// A whole input as one module.
pub open spec fn spec_module(s: Seq<char>) -> Option<ModuleView> {
    match spec_parse_module(s, 0) {
        Some((m, j)) => if j == s.len() {
            Some(m)
        } else {
            None
        },
        None => None,
    }
}

/// A whole input as one rule.
pub open spec fn spec_lsystem_rule(s: Seq<char>) -> Option<RuleView> {
    match spec_parse_rule(s, 0) {
        Some((r, j)) => if j == s.len() {
            Some(r)
        } else {
            None
        },
        None => None,
    }
}

/// A whole input as a module string.
pub open spec fn spec_module_string(s: Seq<char>) -> Option<Seq<ModuleView>> {
    let (ms, end) = spec_parse_module_entries(s, Seq::empty(), 0);
    if end == s.len() {
        Some(ms)
    } else {
        None
    }
}

/// A whole input as a newline-separated rule list.
pub open spec fn spec_rule_list(s: Seq<char>) -> Option<Seq<RuleView>> {
    let (rs, end) = match spec_parse_rule(s, 0) {
        Some((r, k)) => if 0 < k <= s.len() {
            spec_parse_rules_more(s, seq![r], k)
        } else {
            (seq![r], k)
        },
        None => (Seq::empty(), 0),
    };
    let end2 = spec_skip_newlines(s, end);
    if end2 == s.len() {
        Some(rs)
    } else {
        None
    }
}

// ---------------------------------------------------------------------
// Executable parser
// ---------------------------------------------------------------------

/// Skip line whitespace.
fn skip_ws(s: &Vec<char>, i: usize) -> (r: usize)
    requires
        i <= s@.len(),
    ensures
        r == spec_skip_ws(s@, i as int),
        i <= r <= s@.len(),
    decreases s@.len() - i,
{
    if i < s.len() && (s[i] == ' ' || s[i] == '\t') {
        skip_ws(s, i + 1)
    } else {
        i
    }
}

/// Skip a run of digits.
fn digits_end(s: &Vec<char>, i: usize) -> (r: usize)
    requires
        i <= s@.len(),
    ensures
        r == spec_digits_end(s@, i as int),
        i <= r <= s@.len(),
        forall|k: int| i <= k < r ==> is_digit_char(#[trigger] s@[k]),
    decreases s@.len() - i,
{
    if i < s.len() && '0' <= s[i] && s[i] <= '9' {
        digits_end(s, i + 1)
    } else {
        i
    }
}

/// The value of a digit run, or `None` as soon as it exceeds the cap.
fn digits_value_capped(s: &Vec<char>, i: usize, j: usize, cap: u64) -> (r: Option<u64>)
    requires
        i <= j <= s@.len(),
        forall|k: int| i <= k < j ==> is_digit_char(#[trigger] s@[k]),
        cap <= 0x1000_0000_0000_0000,
    ensures
        match r {
            Some(v) => v as int == spec_digits_val(s@, i as int, j as int) && v <= cap,
            None => spec_digits_val(s@, i as int, j as int) > cap,
        },
{
    proof {
        lemma_digits_val_bounds(s@, i as int, j as int);
    }
    let mut acc: u64 = 0;
    let mut m: usize = i;
    while m < j
        invariant
            i <= m <= j <= s@.len(),
            forall|k: int| i <= k < j ==> is_digit_char(#[trigger] s@[k]),
            acc as int == spec_digits_val(s@, i as int, m as int),
            acc <= cap,
            cap <= 0x1000_0000_0000_0000,
            forall|mm: int|
                i <= mm <= j ==> #[trigger] spec_digits_val(s@, i as int, mm) <= spec_digits_val(
                    s@,
                    i as int,
                    j as int,
                ),
        decreases j - m,
    {
        let c = s[m];
        let d: u64 = (c as u32 as u64) - ('0' as u32 as u64);
        let next: u64 = acc * 10 + d;
        if next > cap {
            proof {
                assert(spec_digits_val(s@, i as int, m + 1) == next);
            }
            return None;
        }
        acc = next;
        m = m + 1;
    }
    Some(acc)
}

/// Ten to a small power.
fn pow10_exec(e: u64) -> (r: u64)
    requires
        e <= 6,
    ensures
        r as int == pow10(e as nat),
{
    proof {
        reveal_with_fuel(pow10, 8);
    }
    if e == 0 {
        1
    } else if e == 1 {
        10
    } else if e == 2 {
        100
    } else if e == 3 {
        1_000
    } else if e == 4 {
        10_000
    } else if e == 5 {
        100_000
    } else {
        1_000_000
    }
}

/// Parse a numeric literal into a fixed-point value.
fn parse_number(s: &Vec<char>, i: usize) -> (r: Option<(Value, usize)>)
    requires
        i <= s@.len(),
    ensures
        match r {
            Some(p) => i < p.1 <= s@.len() && spec_parse_number(s@, i as int) == Some(
                (p.0, p.1 as int),
            ),
            None => spec_parse_number(s@, i as int) is None,
        },
{
    let (neg, i1): (bool, usize) = if i < s.len() && (s[i] == '+' || s[i] == '-') {
        (s[i] == '-', i + 1)
    } else {
        (false, i)
    };
    let j = digits_end(s, i1);
    if j == i1 {
        return None;
    }
    proof {
        lemma_spec_frac_nonneg(s@, j as int);
    }
    let whole = match digits_value_capped(s, i1, j, 1_000_000_000_000) {
        Some(v) => v,
        None => {
            return None;
        },
    };
    let (frac, end): (u64, usize) = if j < s.len() && s[j] == '.' {
        let fe = digits_end(s, j + 1);
        if fe > j + 1 {
            let width = fe - (j + 1);
            let k: usize = if width > 6 {
                6
            } else {
                width
            };
            proof {
                lemma_digits_val_bounds(s@, j + 1, j + 1 + k);
                lemma_pow10_at_most_six(k as nat);
            }
            let fv = match digits_value_capped(s, j + 1, j + 1 + k, 1_000_000) {
                Some(v) => v,
                None => {
                    proof {
                        assert(false);
                    }
                    0
                },
            };
            let mult = pow10_exec(6 - (k as u64));
            proof {
                lemma_pow10_at_most_six((6 - k) as nat);
                assert(fv * mult <= 1_000_000 * 1_000_000) by (nonlinear_arith)
                    requires
                        fv <= 1_000_000,
                        mult <= 1_000_000,
                ;
                let lo = j as int + 1;
                let hi = fe as int;
                if width <= 6 {
                    assert(j + 1 + k == fe);
                    assert(fv as int == spec_digits_val(s@, lo, hi));
                    assert(mult as int == pow10((6 - (hi - lo)) as nat));
                    assert(spec_frac_units(s@, lo, hi) == spec_digits_val(s@, lo, hi) * pow10(
                        (6 - (hi - lo)) as nat,
                    ));
                    assert((fv as int) * (mult as int) == spec_digits_val(s@, lo, hi) * pow10(
                        (6 - (hi - lo)) as nat,
                    ));
                } else {
                    assert(k == 6);
                    assert(fv as int == spec_digits_val(s@, lo, lo + 6));
                    assert(mult as int == pow10(0));
                    assert(mult == 1);
                    assert(spec_frac_units(s@, lo, hi) == spec_digits_val(s@, lo, lo + 6));
                }
                assert((fv * mult) as int == spec_frac_units(s@, j + 1, fe as int));
            }
            (fv * mult, fe)
        } else {
            (0, j)
        }
    } else {
        (0, j)
    };
    let units: u64 = whole * SCALE + frac;
    if units > MAX_MAG {
        return None;
    }
    match Value::from_units(neg, units) {
        Some(v) => Some((v, end)),
        None => {
            proof {
                assert(false);
            }
            None
        },
    }
}

/// Ten raised to one power times ten raised to another is ten raised to
/// their sum.
proof fn lemma_pow10_add(a: nat, b: nat)
    ensures
        pow10(a) * pow10(b) == pow10(a + b),
    decreases a,
{
    if a > 0 {
        lemma_pow10_add((a - 1) as nat, b);
        assert(pow10(a) * pow10(b) == 10 * pow10((a - 1) as nat) * pow10(b));
        assert(10 * pow10((a - 1) as nat) * pow10(b) == 10 * (pow10((a - 1) as nat) * pow10(b)))
            by (nonlinear_arith);
    }
}

/// A fraction's unit count lies below one whole unit.
proof fn lemma_frac_units_bounds(s: Seq<char>, i: int, j: int)
    requires
        0 <= i <= j <= s.len(),
        forall|k: int| i <= k < j ==> is_digit_char(#[trigger] s[k]),
    ensures
        0 <= spec_frac_units(s, i, j) < 1_000_000,
{
    reveal_with_fuel(pow10, 8);
    if j - i <= 6 {
        lemma_digits_val_bounds(s, i, j);
        lemma_pow10_at_most_six((6 - (j - i)) as nat);
        lemma_pow10_add((j - i) as nat, (6 - (j - i)) as nat);
        let v = spec_digits_val(s, i, j);
        let a = pow10((j - i) as nat);
        let b = pow10((6 - (j - i)) as nat);
        assert(v * b < a * b) by (nonlinear_arith)
            requires
                0 <= v < a,
                b >= 1,
        ;
        assert(v * b >= 0) by (nonlinear_arith)
            requires
                v >= 0,
                b >= 1,
        ;
    } else {
        lemma_digits_val_bounds(s, i, i + 6);
    }
}

/// Whatever follows the integer digits, the fraction part of a literal is
/// non-negative and below one whole unit.
proof fn lemma_spec_frac_nonneg(s: Seq<char>, j: int)
    requires
        0 <= j <= s.len(),
    ensures
        j < s.len() && s[j] == '.' && spec_digits_end(s, j + 1) > j + 1 ==> 0 <= spec_frac_units(
            s,
            j + 1,
            spec_digits_end(s, j + 1),
        ) < 1_000_000,
{
    if j < s.len() && s[j] == '.' && spec_digits_end(s, j + 1) > j + 1 {
        lemma_digits_end_bounds(s, j + 1);
        lemma_frac_units_bounds(s, j + 1, spec_digits_end(s, j + 1));
    }
}

/// Ten to at most the sixth power is at most one million.
proof fn lemma_pow10_at_most_six(k: nat)
    requires
        k <= 6,
    ensures
        1 <= pow10(k) <= 1_000_000,
{
    reveal_with_fuel(pow10, 8);
    if k == 0 {
    } else if k == 1 {
    } else if k == 2 {
    } else if k == 3 {
    } else if k == 4 {
    } else if k == 5 {
    } else {
        assert(k == 6);
    }
}

/// Parse an atom: a literal, a parameter name, or a parenthesized
/// subexpression.
fn parse_atom(s: &Vec<char>, i: usize) -> (r: Option<(ArithmeticExpression, usize)>)
    requires
        i <= s@.len(),
    ensures
        match r {
            Some(p) => i < p.1 <= s@.len() && spec_parse_atom(s@, i as int) == Some(
                (p.0, p.1 as int),
            ),
            None => spec_parse_atom(s@, i as int) is None,
        },
    decreases s@.len() - i, 2int,
{
    match parse_number(s, i) {
        Some((v, j)) => Some((ArithmeticExpression::Const(v), j)),
        None => {
            if i < s.len() && 'a' <= s[i] && s[i] <= 'z' {
                Some((ArithmeticExpression::Param(s[i]), i + 1))
            } else if i < s.len() && s[i] == '(' {
                let p = skip_ws(s, i + 1);
                match parse_arith(s, p) {
                    Some((e, j)) => {
                        let q = skip_ws(s, j);
                        if q < s.len() && s[q] == ')' {
                            Some((e, q + 1))
                        } else {
                            None
                        }
                    },
                    None => None,
                }
            } else {
                None
            }
        },
    }
}

/// Parse a possibly negated atom.
fn parse_unary(s: &Vec<char>, i: usize) -> (r: Option<(ArithmeticExpression, usize)>)
    requires
        i <= s@.len(),
    ensures
        match r {
            Some(p) => i < p.1 <= s@.len() && spec_parse_unary(s@, i as int) == Some(
                (p.0, p.1 as int),
            ),
            None => spec_parse_unary(s@, i as int) is None,
        },
    decreases s@.len() - i, 3int,
{
    if i < s.len() && s[i] == '-' {
        match parse_unary(s, i + 1) {
            Some((e, j)) => Some((ArithmeticExpression::Neg(Box::new(e)), j)),
            None => None,
        }
    } else {
        parse_atom(s, i)
    }
}

/// Parse a right-associative power chain.
fn parse_power(s: &Vec<char>, i: usize) -> (r: Option<(ArithmeticExpression, usize)>)
    requires
        i <= s@.len(),
    ensures
        match r {
            Some(p) => i < p.1 <= s@.len() && spec_parse_power(s@, i as int) == Some(
                (p.0, p.1 as int),
            ),
            None => spec_parse_power(s@, i as int) is None,
        },
    decreases s@.len() - i, 4int,
{
    match parse_unary(s, i) {
        None => None,
        Some((base, j)) => {
            let p = skip_ws(s, j);
            if p < s.len() && s[p] == '^' {
                let q = skip_ws(s, p + 1);
                match parse_power(s, q) {
                    Some((e, k)) => Some(
                        (ArithmeticExpression::Pow(Box::new(base), Box::new(e)), k),
                    ),
                    None => Some((base, j)),
                }
            } else {
                Some((base, j))
            }
        },
    }
}

/// Parse the multiplications and divisions following a first factor.
fn parse_term_more(s: &Vec<char>, acc: ArithmeticExpression, i: usize) -> (r: (
    ArithmeticExpression,
    usize,
))
    requires
        i <= s@.len(),
    ensures
        i <= r.1 <= s@.len(),
        spec_parse_term_more(s@, acc, i as int) == (r.0, r.1 as int),
    decreases s@.len() - i, 5int,
{
    let p = skip_ws(s, i);
    if p < s.len() && (s[p] == '*' || s[p] == '/') {
        let is_mul = s[p] == '*';
        let q = skip_ws(s, p + 1);
        match parse_power(s, q) {
            Some((f, j)) => {
                let node = if is_mul {
                    ArithmeticExpression::Mul(Box::new(acc), Box::new(f))
                } else {
                    ArithmeticExpression::Div(Box::new(acc), Box::new(f))
                };
                parse_term_more(s, node, j)
            },
            None => (acc, i),
        }
    } else {
        (acc, i)
    }
}

/// Parse a product of powers.
fn parse_term(s: &Vec<char>, i: usize) -> (r: Option<(ArithmeticExpression, usize)>)
    requires
        i <= s@.len(),
    ensures
        match r {
            Some(p) => i < p.1 <= s@.len() && spec_parse_term(s@, i as int) == Some(
                (p.0, p.1 as int),
            ),
            None => spec_parse_term(s@, i as int) is None,
        },
    decreases s@.len() - i, 6int,
{
    match parse_power(s, i) {
        None => None,
        Some((f, j)) => {
            let (e, k) = parse_term_more(s, f, j);
            Some((e, k))
        },
    }
}

/// Parse the additions and subtractions following a first term.
fn parse_arith_more(s: &Vec<char>, acc: ArithmeticExpression, i: usize) -> (r: (
    ArithmeticExpression,
    usize,
))
    requires
        i <= s@.len(),
    ensures
        i <= r.1 <= s@.len(),
        spec_parse_arith_more(s@, acc, i as int) == (r.0, r.1 as int),
    decreases s@.len() - i, 7int,
{
    let p = skip_ws(s, i);
    if p < s.len() && (s[p] == '+' || s[p] == '-') {
        let is_add = s[p] == '+';
        let q = skip_ws(s, p + 1);
        match parse_term(s, q) {
            Some((t, j)) => {
                let node = if is_add {
                    ArithmeticExpression::Add(Box::new(acc), Box::new(t))
                } else {
                    ArithmeticExpression::Sub(Box::new(acc), Box::new(t))
                };
                parse_arith_more(s, node, j)
            },
            None => (acc, i),
        }
    } else {
        (acc, i)
    }
}

/// Parse a full arithmetic expression.
fn parse_arith(s: &Vec<char>, i: usize) -> (r: Option<(ArithmeticExpression, usize)>)
    requires
        i <= s@.len(),
    ensures
        match r {
            Some(p) => i < p.1 <= s@.len() && spec_parse_arith(s@, i as int) == Some(
                (p.0, p.1 as int),
            ),
            None => spec_parse_arith(s@, i as int) is None,
        },
    decreases s@.len() - i, 8int,
{
    match parse_term(s, i) {
        None => None,
        Some((t, j)) => {
            let (e, k) = parse_arith_more(s, t, j);
            Some((e, k))
        },
    }
}

/// Parse a boolean constant.
fn parse_bool_const(s: &Vec<char>, i: usize) -> (r: Option<(BooleanExpression, usize)>)
    requires
        i <= s@.len(),
    ensures
        match r {
            Some(p) => i < p.1 <= s@.len() && spec_parse_bool_const(s@, i as int) == Some(
                (p.0, p.1 as int),
            ),
            None => spec_parse_bool_const(s@, i as int) is None,
        },
{
    if s.len() - i >= 4 && s[i] == 't' && s[i + 1] == 'r' && s[i + 2] == 'u' && s[i + 3] == 'e' {
        Some((BooleanExpression::Const(true), i + 4))
    } else if s.len() - i >= 5 && s[i] == 'f' && s[i + 1] == 'a' && s[i + 2] == 'l' && s[i + 3]
        == 's' && s[i + 4] == 'e' {
        Some((BooleanExpression::Const(false), i + 5))
    } else if i < s.len() && s[i] == '*' {
        Some((BooleanExpression::Const(true), i + 1))
    } else {
        None
    }
}

/// Parse a comparison of two arithmetic expressions.
fn parse_cmp(s: &Vec<char>, i: usize) -> (r: Option<(BooleanExpression, usize)>)
    requires
        i <= s@.len(),
    ensures
        match r {
            Some(p) => i < p.1 <= s@.len() && spec_parse_cmp(s@, i as int) == Some(
                (p.0, p.1 as int),
            ),
            None => spec_parse_cmp(s@, i as int) is None,
        },
    decreases s@.len() - i, 9int,
{
    match parse_arith(s, i) {
        None => None,
        Some((l, j)) => {
            let p = skip_ws(s, j);
            let op: Option<(u8, usize)> = if s.len() - p >= 2 && s[p] == '<' && s[p + 1] == '=' {
                Some((1, p + 2))
            } else if s.len() - p >= 2 && s[p] == '>' && s[p + 1] == '=' {
                Some((3, p + 2))
            } else if s.len() - p >= 2 && s[p] == '=' && s[p + 1] == '=' {
                Some((4, p + 2))
            } else if p < s.len() && s[p] == '<' {
                Some((0, p + 1))
            } else if p < s.len() && s[p] == '>' {
                Some((2, p + 1))
            } else {
                None
            };
            match op {
                None => None,
                Some((kind, after)) => {
                    let q = skip_ws(s, after);
                    match parse_arith(s, q) {
                        None => None,
                        Some((rhs, k)) => {
                            let node = if kind == 0 {
                                BooleanExpression::Lth(Box::new(l), Box::new(rhs))
                            } else if kind == 1 {
                                BooleanExpression::Leq(Box::new(l), Box::new(rhs))
                            } else if kind == 2 {
                                BooleanExpression::Gth(Box::new(l), Box::new(rhs))
                            } else if kind == 3 {
                                BooleanExpression::Geq(Box::new(l), Box::new(rhs))
                            } else {
                                BooleanExpression::Eq(Box::new(l), Box::new(rhs))
                            };
                            Some((node, k))
                        },
                    }
                },
            }
        },
    }
}

/// Parse the operand of a negation.
fn parse_bool_neg_operand(s: &Vec<char>, i: usize) -> (r: Option<(BooleanExpression, usize)>)
    requires
        i <= s@.len(),
    ensures
        match r {
            Some(p) => i < p.1 <= s@.len() && spec_parse_bool_neg_operand(s@, i as int) == Some(
                (p.0, p.1 as int),
            ),
            None => spec_parse_bool_neg_operand(s@, i as int) is None,
        },
    decreases s@.len() - i, 10int,
{
    if i < s.len() && s[i] == '(' {
        let p = skip_ws(s, i + 1);
        match parse_bool_or(s, p) {
            Some((b, j)) => {
                let q = skip_ws(s, j);
                if q < s.len() && s[q] == ')' {
                    Some((b, q + 1))
                } else {
                    None
                }
            },
            None => None,
        }
    } else if i < s.len() && s[i] == '!' {
        match parse_bool_neg_operand(s, i + 1) {
            Some((b, j)) => Some((BooleanExpression::Not(Box::new(b)), j)),
            None => None,
        }
    } else {
        parse_bool_const(s, i)
    }
}

/// Parse a primary boolean.
fn parse_bool_primary(s: &Vec<char>, i: usize) -> (r: Option<(BooleanExpression, usize)>)
    requires
        i <= s@.len(),
    ensures
        match r {
            Some(p) => i < p.1 <= s@.len() && spec_parse_bool_primary(s@, i as int) == Some(
                (p.0, p.1 as int),
            ),
            None => spec_parse_bool_primary(s@, i as int) is None,
        },
    decreases s@.len() - i, 11int,
{
    let paren: Option<(BooleanExpression, usize)> = if i < s.len() && s[i] == '(' {
        let p = skip_ws(s, i + 1);
        match parse_bool_or(s, p) {
            Some((b, j)) => {
                let q = skip_ws(s, j);
                if q < s.len() && s[q] == ')' {
                    Some((b, q + 1))
                } else {
                    None
                }
            },
            None => None,
        }
    } else {
        None
    };
    match paren {
        Some(p) => Some(p),
        None => match parse_cmp(s, i) {
            Some(p) => Some(p),
            None => {
                if i < s.len() && s[i] == '!' {
                    match parse_bool_neg_operand(s, i + 1) {
                        Some((b, j)) => Some((BooleanExpression::Not(Box::new(b)), j)),
                        None => None,
                    }
                } else {
                    parse_bool_const(s, i)
                }
            },
        },
    }
}

/// Parse the conjunctions following a first primary.
fn parse_bool_and_more(s: &Vec<char>, acc: BooleanExpression, i: usize) -> (r: (
    BooleanExpression,
    usize,
))
    requires
        i <= s@.len(),
    ensures
        i <= r.1 <= s@.len(),
        spec_parse_bool_and_more(s@, acc, i as int) == (r.0, r.1 as int),
    decreases s@.len() - i, 12int,
{
    let p = skip_ws(s, i);
    if s.len() - p >= 2 && s[p] == '&' && s[p + 1] == '&' {
        let q = skip_ws(s, p + 2);
        match parse_bool_primary(s, q) {
            Some((b, j)) => parse_bool_and_more(
                s,
                BooleanExpression::And(Box::new(acc), Box::new(b)),
                j,
            ),
            None => (acc, i),
        }
    } else {
        (acc, i)
    }
}

/// Parse a conjunction of primaries.
fn parse_bool_and(s: &Vec<char>, i: usize) -> (r: Option<(BooleanExpression, usize)>)
    requires
        i <= s@.len(),
    ensures
        match r {
            Some(p) => i < p.1 <= s@.len() && spec_parse_bool_and(s@, i as int) == Some(
                (p.0, p.1 as int),
            ),
            None => spec_parse_bool_and(s@, i as int) is None,
        },
    decreases s@.len() - i, 13int,
{
    match parse_bool_primary(s, i) {
        None => None,
        Some((b, j)) => {
            let (e, k) = parse_bool_and_more(s, b, j);
            Some((e, k))
        },
    }
}

/// Parse the disjunctions following a first conjunction.
fn parse_bool_or_more(s: &Vec<char>, acc: BooleanExpression, i: usize) -> (r: (
    BooleanExpression,
    usize,
))
    requires
        i <= s@.len(),
    ensures
        i <= r.1 <= s@.len(),
        spec_parse_bool_or_more(s@, acc, i as int) == (r.0, r.1 as int),
    decreases s@.len() - i, 14int,
{
    let p = skip_ws(s, i);
    if s.len() - p >= 2 && s[p] == '|' && s[p + 1] == '|' {
        let q = skip_ws(s, p + 2);
        match parse_bool_and(s, q) {
            Some((b, j)) => parse_bool_or_more(
                s,
                BooleanExpression::Or(Box::new(acc), Box::new(b)),
                j,
            ),
            None => (acc, i),
        }
    } else {
        (acc, i)
    }
}

/// Parse a full boolean expression.
fn parse_bool_expr(s: &Vec<char>, i: usize) -> (r: Option<(BooleanExpression, usize)>)
    requires
        i <= s@.len(),
    ensures
        match r {
            Some(p) => i < p.1 <= s@.len() && spec_parse_bool_expr(s@, i as int) == Some(
                (p.0, p.1 as int),
            ),
            None => spec_parse_bool_expr(s@, i as int) is None,
        },
    decreases s@.len() - i, 15int,
{
    match parse_bool_and(s, i) {
        None => None,
        Some((b, j)) => {
            let (e, k) = parse_bool_or_more(s, b, j);
            Some((e, k))
        },
    }
}

/// Parse a full boolean expression, as parenthesized subexpressions do.
fn parse_bool_or(s: &Vec<char>, i: usize) -> (r: Option<(BooleanExpression, usize)>)
    requires
        i <= s@.len(),
    ensures
        match r {
            Some(p) => i < p.1 <= s@.len() && spec_parse_bool_or(s@, i as int) == Some(
                (p.0, p.1 as int),
            ),
            None => spec_parse_bool_or(s@, i as int) is None,
        },
    decreases s@.len() - i, 16int,
{
    parse_bool_expr(s, i)
}

/// Whether a character may serve as a module identifier.
fn is_identifier(c: char) -> (r: bool)
    ensures
        r == is_identifier_char(c),
{
    ('a' <= c && c <= 'z') || ('A' <= c && c <= 'Z') || ('0' <= c && c <= '9') || c == '!' || c
        == '^' || c == '+' || c == '\'' || c == '-' || c == '[' || c == ']' || c == '\\' || c == '/'
        || c == '|' || c == '#' || c == '&' || c == '{' || c == '}' || c == '.'
}

/// Parse an optional annotation marker.
fn parse_annotation(s: &Vec<char>, i: usize) -> (r: (Option<ModuleAnnotation>, usize))
    requires
        i <= s@.len(),
    ensures
        i <= r.1 <= s@.len(),
        spec_parse_annotation(s@, i as int) == (r.0, r.1 as int),
{
    if i < s.len() && s[i] == '~' {
        (Some(ModuleAnnotation::CreatePatch), i + 1)
    } else {
        (None, i)
    }
}

/// Parse the parameter names following a first one.
fn parse_params_more(s: &Vec<char>, acc: Vec<char>, i: usize) -> (r: (Vec<char>, usize))
    requires
        i <= s@.len(),
    ensures
        i <= r.1 <= s@.len(),
        spec_parse_params_more(s@, acc@, i as int) == (r.0@, r.1 as int),
    decreases s@.len() - i,
{
    let p = skip_ws(s, i);
    if p < s.len() && s[p] == ',' {
        let q = skip_ws(s, p + 1);
        if q < s.len() && 'a' <= s[q] && s[q] <= 'z' {
            let mut acc2 = acc;
            acc2.push(s[q]);
            parse_params_more(s, acc2, q + 1)
        } else {
            (acc, i)
        }
    } else {
        (acc, i)
    }
}

/// Parse a possibly empty comma-separated list of parameter names.
fn parse_params(s: &Vec<char>, i: usize) -> (r: (Vec<char>, usize))
    requires
        i <= s@.len(),
    ensures
        i <= r.1 <= s@.len(),
        spec_parse_params(s@, i as int) == (r.0@, r.1 as int),
{
    if i < s.len() && 'a' <= s[i] && s[i] <= 'z' {
        let mut acc: Vec<char> = Vec::new();
        acc.push(s[i]);
        proof {
            assert(acc@ =~= seq![s@[i as int]]);
        }
        parse_params_more(s, acc, i + 1)
    } else {
        let acc: Vec<char> = Vec::new();
        proof {
            assert(acc@ =~= Seq::<char>::empty());
        }
        (acc, i)
    }
}

/// Parse a module signature.
fn parse_signature(s: &Vec<char>, i: usize) -> (r: Option<(ModuleSignature, usize)>)
    requires
        i <= s@.len(),
    ensures
        match r {
            Some(p) => i < p.1 <= s@.len() && spec_parse_signature(s@, i as int) == Some(
                (p.0@, p.1 as int),
            ),
            None => spec_parse_signature(s@, i as int) is None,
        },
{
    if i < s.len() && is_identifier(s[i]) {
        let id = s[i];
        if i + 1 < s.len() && s[i + 1] == '(' {
            let (ps, j) = parse_params(s, skip_ws(s, i + 2));
            let q = skip_ws(s, j);
            if q < s.len() && s[q] == ')' {
                return Some((ModuleSignature { identifier: id, parameters: ps }, q + 1));
            }
        }
        Some((ModuleSignature { identifier: id, parameters: Vec::new() }, i + 1))
    } else {
        None
    }
}

/// Parse the argument expressions following a first one.
fn parse_args_more(s: &Vec<char>, acc: Vec<ArithmeticExpression>, i: usize) -> (r: (
    Vec<ArithmeticExpression>,
    usize,
))
    requires
        i <= s@.len(),
    ensures
        i <= r.1 <= s@.len(),
        spec_parse_args_more(s@, acc@, i as int) == (r.0@, r.1 as int),
    decreases s@.len() - i, 17int,
{
    if i < s.len() && s[i] == ',' {
        match parse_arith(s, i + 1) {
            Some((e, j)) => {
                let mut acc2 = acc;
                acc2.push(e);
                parse_args_more(s, acc2, j)
            },
            None => (acc, i),
        }
    } else {
        (acc, i)
    }
}

/// Parse a possibly empty comma-separated list of argument expressions.
fn parse_args(s: &Vec<char>, i: usize) -> (r: (Vec<ArithmeticExpression>, usize))
    requires
        i <= s@.len(),
    ensures
        i <= r.1 <= s@.len(),
        spec_parse_args(s@, i as int) == (r.0@, r.1 as int),
{
    match parse_arith(s, i) {
        Some((e, j)) => {
            let mut acc: Vec<ArithmeticExpression> = Vec::new();
            let ghost ev = e;
            acc.push(e);
            proof {
                assert(acc@ =~= seq![ev]);
            }
            parse_args_more(s, acc, j)
        },
        None => {
            let acc: Vec<ArithmeticExpression> = Vec::new();
            proof {
                assert(acc@ =~= Seq::<ArithmeticExpression>::empty());
            }
            (acc, i)
        },
    }
}

/// Parse the numeric literals following a first one.
fn parse_nums_more(s: &Vec<char>, acc: Vec<Value>, i: usize) -> (r: (Vec<Value>, usize))
    requires
        i <= s@.len(),
    ensures
        i <= r.1 <= s@.len(),
        spec_parse_nums_more(s@, acc@, i as int) == (r.0@, r.1 as int),
    decreases s@.len() - i,
{
    if i < s.len() && s[i] == ',' {
        match parse_number(s, i + 1) {
            Some((v, j)) => {
                let mut acc2 = acc;
                acc2.push(v);
                parse_nums_more(s, acc2, j)
            },
            None => (acc, i),
        }
    } else {
        (acc, i)
    }
}

/// Parse a possibly empty comma-separated list of numeric literals.
fn parse_nums(s: &Vec<char>, i: usize) -> (r: (Vec<Value>, usize))
    requires
        i <= s@.len(),
    ensures
        i <= r.1 <= s@.len(),
        spec_parse_nums(s@, i as int) == (r.0@, r.1 as int),
{
    match parse_number(s, i) {
        Some((v, j)) => {
            let mut acc: Vec<Value> = Vec::new();
            acc.push(v);
            proof {
                assert(acc@ =~= seq![v]);
            }
            parse_nums_more(s, acc, j)
        },
        None => {
            let acc: Vec<Value> = Vec::new();
            proof {
                assert(acc@ =~= Seq::<Value>::empty());
            }
            (acc, i)
        },
    }
}

/// Parse a module template.
fn parse_template(s: &Vec<char>, i: usize) -> (r: Option<(ModuleTemplate, usize)>)
    requires
        i <= s@.len(),
    ensures
        match r {
            Some(p) => i < p.1 <= s@.len() && spec_parse_template(s@, i as int) == Some(
                (p.0@, p.1 as int),
            ),
            None => spec_parse_template(s@, i as int) is None,
        },
{
    let (ann, i1) = parse_annotation(s, i);
    if i1 < s.len() && is_identifier(s[i1]) {
        let id = s[i1];
        if i1 + 1 < s.len() && s[i1 + 1] == '(' {
            let (es, j) = parse_args(s, i1 + 2);
            if j < s.len() && s[j] == ')' {
                return Some(
                    (
                        ModuleTemplate {
                            identifier: id,
                            parameter_expressions: es,
                            annotation: ann,
                        },
                        j + 1,
                    ),
                );
            }
        }
        Some(
            (
                ModuleTemplate {
                    identifier: id,
                    parameter_expressions: Vec::new(),
                    annotation: ann,
                },
                i1 + 1,
            ),
        )
    } else {
        None
    }
}

/// Parse a module.
fn parse_module(s: &Vec<char>, i: usize) -> (r: Option<(Module, usize)>)
    requires
        i <= s@.len(),
    ensures
        match r {
            Some(p) => i < p.1 <= s@.len() && spec_parse_module(s@, i as int) == Some(
                (p.0@, p.1 as int),
            ),
            None => spec_parse_module(s@, i as int) is None,
        },
{
    let (ann, i1) = parse_annotation(s, i);
    if i1 < s.len() && is_identifier(s[i1]) {
        let id = s[i1];
        if i1 + 1 < s.len() && s[i1 + 1] == '(' {
            let (vs, j) = parse_nums(s, i1 + 2);
            if j < s.len() && s[j] == ')' {
                return Some(
                    (Module { identifier: id, parameter_values: vs, annotation: ann }, j + 1),
                );
            }
        }
        Some((Module { identifier: id, parameter_values: Vec::new(), annotation: ann }, i1 + 1))
    } else {
        None
    }
}

/// Parse a module pattern.
fn parse_pattern(s: &Vec<char>, i: usize) -> (r: Option<(ModulePattern, usize)>)
    requires
        i <= s@.len(),
    ensures
        match r {
            Some(p) => i <= p.1 <= s@.len() && spec_parse_pattern(s@, i as int) == Some(
                (p.0@, p.1 as int),
            ),
            None => spec_parse_pattern(s@, i as int) is None,
        },
{
    let (left, pos0): (Option<ModuleSignature>, usize) = match parse_signature(s, i) {
        Some((ls, j)) => {
            let p = skip_ws(s, j);
            if p < s.len() && s[p] == '<' {
                (Some(ls), skip_ws(s, p + 1))
            } else {
                (None, i)
            }
        },
        None => (None, i),
    };
    match parse_signature(s, pos0) {
        None => None,
        Some((center, j1)) => {
            let (right, pos1): (Option<ModuleSignature>, usize) = {
                let p = skip_ws(s, j1);
                if p < s.len() && s[p] == '>' {
                    match parse_signature(s, skip_ws(s, p + 1)) {
                        Some((rs, j2)) => (Some(rs), j2),
                        None => (None, j1),
                    }
                } else {
                    (None, j1)
                }
            };
            let (cond, pos2): (BooleanExpression, usize) = {
                let p = skip_ws(s, pos1);
                if p < s.len() && s[p] == ':' {
                    match parse_bool_expr(s, skip_ws(s, p + 1)) {
                        Some((b, j3)) => (b, j3),
                        None => (BooleanExpression::Const(true), pos1),
                    }
                } else {
                    (BooleanExpression::Const(true), pos1)
                }
            };
            Some(
                (
                    ModulePattern {
                        match_left: left,
                        match_center: center,
                        match_right: right,
                        condition: cond,
                    },
                    pos2,
                ),
            )
        },
    }
}

/// Parse the templates of a rule's right side.
fn parse_template_entries(s: &Vec<char>, acc: Vec<ModuleTemplate>, i: usize) -> (r: (
    Vec<ModuleTemplate>,
    usize,
))
    requires
        i <= s@.len(),
    ensures
        i <= r.1 <= s@.len(),
        spec_parse_template_entries(s@, acc.deep_view(), i as int) == (r.0.deep_view(), r.1 as int),
    decreases s@.len() - i, 20int,
{
    let p = skip_ws(s, i);
    match parse_template(s, p) {
        Some((t, j)) => {
            let q = skip_ws(s, j);
            let ghost accv = acc.deep_view();
            let ghost tv = t@;
            let mut acc2 = acc;
            acc2.push(t);
            proof {
                assert(acc2.deep_view() =~= accv.push(tv));
            }
            parse_template_entries(s, acc2, q)
        },
        None => (acc, i),
    }
}

/// Parse the modules of a module string.
fn parse_module_entries(s: &Vec<char>, acc: Vec<Module>, i: usize) -> (r: (Vec<Module>, usize))
    requires
        i <= s@.len(),
    ensures
        i <= r.1 <= s@.len(),
        spec_parse_module_entries(s@, acc.deep_view(), i as int) == (r.0.deep_view(), r.1 as int),
    decreases s@.len() - i,
{
    let p = skip_ws(s, i);
    match parse_module(s, p) {
        Some((m, j)) => {
            let q = skip_ws(s, j);
            let ghost accv = acc.deep_view();
            let ghost mv = m@;
            let mut acc2 = acc;
            acc2.push(m);
            proof {
                assert(acc2.deep_view() =~= accv.push(mv));
            }
            parse_module_entries(s, acc2, q)
        },
        None => (acc, i),
    }
}

/// Parse one rule.
fn parse_rule(s: &Vec<char>, i: usize) -> (r: Option<(Rule, usize)>)
    requires
        i <= s@.len(),
    ensures
        match r {
            Some(p) => i <= p.1 <= s@.len() && spec_parse_rule(s@, i as int) == Some(
                (p.0@, p.1 as int),
            ),
            None => spec_parse_rule(s@, i as int) is None,
        },
{
    match parse_pattern(s, i) {
        None => None,
        Some((pat, j)) => {
            let a = skip_ws(s, j);
            let (prob, pos1): (Value, usize) = if a < s.len() && s[a] == ':' {
                match parse_number(s, skip_ws(s, a + 1)) {
                    Some((v, b)) => (v, b),
                    None => (Value::from_int(-1), a),
                }
            } else {
                (Value::from_int(-1), a)
            };
            let d = skip_ws(s, pos1);
            if s.len() - d >= 2 && s[d] == '-' && s[d + 1] == '>' {
                let e = skip_ws(s, d + 2);
                let empty_acc: Vec<ModuleTemplate> = Vec::new();
                proof {
                    assert(empty_acc.deep_view() =~= Seq::<TemplateView>::empty());
                }
                let (ts, end) = parse_template_entries(s, empty_acc, e);
                Some((Rule { pattern: pat, right_side: ts, probability: prob }, end))
            } else {
                None
            }
        },
    }
}

/// Skip rule separators: newlines with surrounding line whitespace.
fn skip_newlines(s: &Vec<char>, i: usize) -> (r: usize)
    requires
        i <= s@.len(),
    ensures
        i <= r <= s@.len(),
        r as int == spec_skip_newlines(s@, i as int),
    decreases s@.len() - i,
{
    let p = skip_ws(s, i);
    if p < s.len() && s[p] == '\n' {
        let q = skip_ws(s, p + 1);
        skip_newlines(s, q)
    } else {
        i
    }
}

/// Parse the rules following a first one.
fn parse_rules_more(s: &Vec<char>, acc: Vec<Rule>, i: usize) -> (r: (Vec<Rule>, usize))
    requires
        i <= s@.len(),
    ensures
        i <= r.1 <= s@.len(),
        spec_parse_rules_more(s@, acc.deep_view(), i as int) == (r.0.deep_view(), r.1 as int),
    decreases s@.len() - i, 21int,
{
    let j = skip_newlines(s, i);
    match parse_rule(s, j) {
        Some((rule, k)) => {
            if k > i {
                let ghost accv = acc.deep_view();
                let ghost rv = rule@;
                let mut acc2 = acc;
                acc2.push(rule);
                proof {
                    assert(acc2.deep_view() =~= accv.push(rv));
                }
                parse_rules_more(s, acc2, k)
            } else {
                (acc, i)
            }
        },
        None => (acc, i),
    }
}

/// The characters of a text.
fn chars_of(text: &str) -> (r: Vec<char>)
    ensures
        r@ == text@,
{
    let n = text.unicode_len();
    let mut v: Vec<char> = Vec::new();
    let mut i: usize = 0;
    while i < n
        invariant
            i <= n,
            n == text@.len(),
            v@ == text@.subrange(0, i as int),
        decreases n - i,
    {
        v.push(text.get_char(i));
        proof {
            assert(v@ =~= text@.subrange(0, i + 1));
        }
        i = i + 1;
    }
    proof {
        assert(v@ =~= text@);
    }
    v
}

/// Parse a whole text as one boolean expression.
pub fn boolean_expr(text: &str) -> (r: Option<BooleanExpression>)
    ensures
        r == spec_boolean_expr(text@),
{
    let s = chars_of(text);
    match parse_bool_expr(&s, 0) {
        Some((b, j)) => if j == s.len() {
            Some(b)
        } else {
            None
        },
        None => None,
    }
}

/// Parse a whole text as one module template.
pub fn template(text: &str) -> (r: Option<ModuleTemplate>)
    ensures
        match r {
            Some(t) => spec_template(text@) == Some(t@),
            None => spec_template(text@) is None,
        },
{
    let s = chars_of(text);
    match parse_template(&s, 0) {
        Some((t, j)) => if j == s.len() {
            Some(t)
        } else {
            None
        },
        None => None,
    }
}

/// Parse a whole text as one module.
pub fn module(text: &str) -> (r: Option<Module>)
    ensures
        match r {
            Some(m) => spec_module(text@) == Some(m@),
            None => spec_module(text@) is None,
        },
{
    let s = chars_of(text);
    match parse_module(&s, 0) {
        Some((m, j)) => if j == s.len() {
            Some(m)
        } else {
            None
        },
        None => None,
    }
}

/// Parse a whole text as one rule.
pub fn lsystem_rule(text: &str) -> (r: Option<Rule>)
    ensures
        match r {
            Some(rl) => spec_lsystem_rule(text@) == Some(rl@),
            None => spec_lsystem_rule(text@) is None,
        },
{
    let s = chars_of(text);
    match parse_rule(&s, 0) {
        Some((rl, j)) => if j == s.len() {
            Some(rl)
        } else {
            None
        },
        None => None,
    }
}

/// Parse a whole text as a module string.
pub fn module_string(text: &str) -> (r: Option<Vec<Module>>)
    ensures
        match r {
            Some(v) => spec_module_string(text@) == Some(v.deep_view()),
            None => spec_module_string(text@) is None,
        },
{
    let s = chars_of(text);
    let empty_acc: Vec<Module> = Vec::new();
    proof {
        assert(empty_acc.deep_view() =~= Seq::<ModuleView>::empty());
    }
    let (ms, end) = parse_module_entries(&s, empty_acc, 0);
    if end == s.len() {
        Some(ms)
    } else {
        None
    }
}

/// Parse a whole text as a newline-separated rule list.
pub fn rule_list(text: &str) -> (r: Option<Vec<Rule>>)
    ensures
        match r {
            Some(v) => spec_rule_list(text@) == Some(v.deep_view()),
            None => spec_rule_list(text@) is None,
        },
{
    let s = chars_of(text);
    let (rs, end): (Vec<Rule>, usize) = match parse_rule(&s, 0) {
        Some((rule, k)) => {
            if k > 0 {
                let mut acc: Vec<Rule> = Vec::new();
                let ghost rv = rule@;
                acc.push(rule);
                proof {
                    assert(acc.deep_view() =~= seq![rv]);
                }
                parse_rules_more(&s, acc, k)
            } else {
                let mut acc: Vec<Rule> = Vec::new();
                let ghost rv = rule@;
                acc.push(rule);
                proof {
                    assert(acc.deep_view() =~= seq![rv]);
                }
                (acc, k)
            }
        },
        None => {
            let acc: Vec<Rule> = Vec::new();
            proof {
                assert(acc.deep_view() =~= Seq::<RuleView>::empty());
            }
            (acc, 0)
        },
    };
    let end2 = skip_newlines(&s, end);
    if end2 == s.len() {
        Some(rs)
    } else {
        None
    }
}

} // verus!
