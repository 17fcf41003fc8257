//! The names that generated code gives to the fields it handles.
use vstd::prelude::*;

verus! {

/// The decimal digit for a number below ten.
pub open spec fn digit(d: nat) -> char {
    (('0' as u32) + d) as char
}

/// A number in decimal notation.
pub open spec fn decimal(n: nat) -> Seq<char>
    decreases n,
{
    if n < 10 {
        seq![digit(n)]
    } else {
        decimal(n / 10).push(digit(n % 10))
    }
}

/// The name for the field with this index: `__field0`, `__field1` and so on.
pub open spec fn field_ident(i: nat) -> Seq<char> {
    "__field"@ + decimal(i)
}

/// The names for the fields with the indices below `n`.
pub open spec fn field_idents(n: nat) -> Seq<Seq<char>> {
    Seq::new(n, |i: int| field_ident(i as nat))
}

fn push_digit(s: &mut String, d: usize)
    requires
        d < 10,
    ensures
        final(s)@ == old(s)@.push(digit(d as nat)),
{
    let ghost before = s@;
    proof {
        reveal_strlit("0");
        reveal_strlit("1");
        reveal_strlit("2");
        reveal_strlit("3");
        reveal_strlit("4");
        reveal_strlit("5");
        reveal_strlit("6");
        reveal_strlit("7");
        reveal_strlit("8");
        reveal_strlit("9");
    }
    if d == 0 {
        s.append("0");
    } else if d == 1 {
        s.append("1");
    } else if d == 2 {
        s.append("2");
    } else if d == 3 {
        s.append("3");
    } else if d == 4 {
        s.append("4");
    } else if d == 5 {
        s.append("5");
    } else if d == 6 {
        s.append("6");
    } else if d == 7 {
        s.append("7");
    } else if d == 8 {
        s.append("8");
    } else {
        s.append("9");
    }
    assert(s@ =~= before.push(digit(d as nat)));
}

fn push_decimal(s: &mut String, n: usize)
    ensures
        final(s)@ == old(s)@ + decimal(n as nat),
    decreases n,
{
    let ghost before = s@;
    if n < 10 {
        push_digit(s, n);
        assert(s@ =~= before + decimal(n as nat));
    } else {
        push_decimal(s, n / 10);
        push_digit(s, n % 10);
        assert(s@ =~= before + decimal(n as nat));
    }
}

/// The name for the field with index `i`.
pub fn make_field_ident(i: usize) -> (r: String)
    ensures
        r@ == field_ident(i as nat),
{
    let mut s = "__field".to_owned();
    push_decimal(&mut s, i);
    s
}

/// Two numbers with the same decimal notation are equal.
pub proof fn law_decimal_injective(a: nat, b: nat)
    requires
        decimal(a) == decimal(b),
    ensures
        a == b,
    decreases a,
{
    assert(decimal(a).last() == digit(a % 10));
    assert(decimal(b).last() == digit(b % 10));
    assert(a % 10 == b % 10);
    if a >= 10 && b >= 10 {
        assert(decimal(a).drop_last() =~= decimal(a / 10));
        assert(decimal(b).drop_last() =~= decimal(b / 10));
        law_decimal_injective(a / 10, b / 10);
    } else if a >= 10 {
        lemma_decimal_nonempty(a / 10);
        assert(decimal(a).len() > 1);
    } else if b >= 10 {
        lemma_decimal_nonempty(b / 10);
        assert(decimal(b).len() > 1);
    }
}

proof fn lemma_decimal_nonempty(n: nat)
    ensures
        decimal(n).len() > 0,
    decreases n,
{
}

/// Fields with different indices get different names.
pub proof fn law_field_idents_distinct(i: nat, j: nat)
    requires
        i != j,
    ensures
        field_ident(i) != field_ident(j),
{
    if field_ident(i) == field_ident(j) {
        let n = "__field"@.len() as int;
        assert(decimal(i) =~= field_ident(i).skip(n));
        assert(decimal(j) =~= field_ident(j).skip(n));
        law_decimal_injective(i, j);
    }
}

} // verus!
