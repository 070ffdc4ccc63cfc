use vstd::prelude::*;
use vstd::string::StringExecFns;

verus! {

/// The character of a decimal digit `d < 10`.
pub open spec fn digit_char(d: nat) -> char {
    if d == 0 {
        '0'
    } else if d == 1 {
        '1'
    } else if d == 2 {
        '2'
    } else if d == 3 {
        '3'
    } else if d == 4 {
        '4'
    } else if d == 5 {
        '5'
    } else if d == 6 {
        '6'
    } else if d == 7 {
        '7'
    } else if d == 8 {
        '8'
    } else {
        '9'
    }
}

/// The decimal notation of `n`, without leading zeros.
pub open spec fn decimal(n: nat) -> Seq<char>
    decreases n,
{
    if n < 10 {
        seq![digit_char(n)]
    } else {
        decimal(n / 10).push(digit_char(n % 10))
    }
}

/// The name of the file that receives download number `n`: `test-<n>.<ext>`.
pub open spec fn file_name_of(n: nat, ext: Seq<char>) -> Seq<char> {
    "test-"@ + decimal(n) + "."@ + ext
}

proof fn lemma_digit_char_injective(a: nat, b: nat)
    requires
        a < 10,
        b < 10,
        digit_char(a) == digit_char(b),
    ensures
        a == b,
{
}

proof fn lemma_decimal_not_empty(n: nat)
    ensures
        decimal(n).len() >= 1,
    decreases n,
{
    if n >= 10 {
        lemma_decimal_not_empty(n / 10);
    }
}

proof fn lemma_decimal_len_small(n: nat)
    ensures
        decimal(n).len() == 1 <==> n < 10,
{
    if n >= 10 {
        lemma_decimal_not_empty(n / 10);
    }
}

/// Distinct numbers have distinct decimal notations.
pub proof fn lemma_decimal_injective(a: nat, b: nat)
    requires
        decimal(a) == decimal(b),
    ensures
        a == b,
    decreases a,
{
    lemma_decimal_len_small(a);
    lemma_decimal_len_small(b);
    if a < 10 {
        assert(b < 10);
        assert(decimal(a)[0] == digit_char(a));
        assert(decimal(b)[0] == digit_char(b));
        lemma_digit_char_injective(a, b);
    } else {
        let da = decimal(a);
        let db = decimal(b);
        assert(da.last() == db.last());
        assert(da.drop_last() == db.drop_last());
        assert(decimal(a / 10) == da.drop_last());
        assert(decimal(b / 10) == db.drop_last());
        lemma_decimal_injective(a / 10, b / 10);
        lemma_digit_char_injective(a % 10, b % 10);
    }
}

/// Two downloads with distinct numbers are written to distinct files.
pub proof fn lemma_file_name_injective(a: nat, b: nat, ext: Seq<char>)
    requires
        file_name_of(a, ext) == file_name_of(b, ext),
    ensures
        a == b,
{
    reveal_strlit("test-");
    reveal_strlit(".");
    let fa = file_name_of(a, ext);
    let fb = file_name_of(b, ext);
    let la = decimal(a).len();
    let lb = decimal(b).len();
    assert(fa.len() == 5 + la + 1 + ext.len());
    assert(fb.len() == 5 + lb + 1 + ext.len());
    assert(la == lb);
    assert(fa.subrange(5, 5 + la as int) =~= decimal(a));
    assert(fb.subrange(5, 5 + lb as int) =~= decimal(b));
    lemma_decimal_injective(a, b);
}

fn digit_str(d: u64) -> (r: &'static str)
    requires
        d < 10,
    ensures
        r@ == seq![digit_char(d as nat)],
{
    proof {
        reveal_strlit("0");
        reveal_strlit("1");
        reveal_strlit("2");
        reveal_strlit("3");
        reveal_strlit("4");
        reveal_strlit("5");
        reveal_strlit("6");
        reveal_strlit("7");
        reveal_strlit("8");
        reveal_strlit("9");
    }
    if d == 0 {
        "0"
    } else if d == 1 {
        "1"
    } else if d == 2 {
        "2"
    } else if d == 3 {
        "3"
    } else if d == 4 {
        "4"
    } else if d == 5 {
        "5"
    } else if d == 6 {
        "6"
    } else if d == 7 {
        "7"
    } else if d == 8 {
        "8"
    } else {
        "9"
    }
}

/// Appends the decimal notation of `n` to `s`.
pub fn push_decimal(s: &mut String, n: u64)
    ensures
        final(s)@ == old(s)@ + decimal(n as nat),
    decreases n,
{
    if n >= 10 {
        push_decimal(s, n / 10);
        s.append(digit_str(n % 10));
        assert(final(s)@ =~= old(s)@ + decimal(n as nat));
    } else {
        s.append(digit_str(n));
    }
}

/// The destination file name of download number `n`, e.g. `test-7.svg`.
pub fn file_name(n: u64, ext: &str) -> (r: String)
    ensures
        r@ == file_name_of(n as nat, ext@),
{
    let mut s = String::from_str("test-");
    proof {
        reveal_strlit("test-");
        reveal_strlit(".");
    }
    push_decimal(&mut s, n);
    s.append(".");
    s.append(ext);
    assert(s@ =~= file_name_of(n as nat, ext@));
    s
}

/// A counter that hands out the numbers 1, 2, 3, ... each exactly once.
pub struct NamingCounter {
    value: u64,
}

impl NamingCounter {
    /// The number handed out last, 0 before the first claim.
    pub closed spec fn value(&self) -> nat {
        self.value as nat
    }

    /// A counter that has handed out nothing yet.
    pub fn new() -> (r: NamingCounter)
        ensures
            r.value() == 0,
    {
        NamingCounter { value: 0 }
    }

    /// The number handed out last, 0 before the first claim.
    pub fn current(&self) -> (r: u64)
        ensures
            r as nat == self.value(),
    {
        self.value
    }

    /// Increments the counter and returns its new value.
    pub fn claim(&mut self) -> (r: u64)
        requires
            old(self).value() < u64::MAX,
        ensures
            r as nat == old(self).value() + 1,
            final(self).value() == r as nat,
    {
        self.value = self.value + 1;
        self.value
    }
}

} // verus!
