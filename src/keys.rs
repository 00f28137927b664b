use vstd::prelude::*;

verus! {

/// The decimal digit character of `d`, for `d < 10`.
pub open spec fn digit_char(d: nat) -> char {
    if d == 0 {
        '0'
    } else if d == 1 {
        '1'
    } else if d == 2 {
        '2'
    } else if d == 3 {
        '3'
    } else if d == 4 {
        '4'
    } else if d == 5 {
        '5'
    } else if d == 6 {
        '6'
    } else if d == 7 {
        '7'
    } else if d == 8 {
        '8'
    } else {
        '9'
    }
}

/// The decimal rendering of `n`, without leading zeros: the key of position
/// `n` in an array container.
pub open spec fn index_key(n: nat) -> Seq<char>
    decreases n,
{
    if n < 10 {
        seq![digit_char(n)]
    } else {
        index_key(n / 10).push(digit_char(n % 10))
    }
}

proof fn lemma_digit_char_injective(a: nat, b: nat)
    requires
        a < 10,
        b < 10,
        digit_char(a) == digit_char(b),
    ensures
        a == b,
{
}

proof fn lemma_index_key_nonempty(n: nat)
    ensures
        index_key(n).len() >= 1,
        n >= 10 ==> index_key(n).len() >= 2,
    decreases n,
{
    if n >= 10 {
        lemma_index_key_nonempty(n / 10);
    }
}

/// Distinct positions have distinct keys.
pub proof fn lemma_index_key_injective(a: nat, b: nat)
    ensures
        index_key(a) == index_key(b) ==> a == b,
    decreases a,
{
    lemma_index_key_nonempty(a);
    lemma_index_key_nonempty(b);
    if index_key(a) == index_key(b) {
        if a < 10 && b < 10 {
            assert(index_key(a)[0] == digit_char(a));
            assert(index_key(b)[0] == digit_char(b));
            lemma_digit_char_injective(a, b);
        } else if a >= 10 && b >= 10 {
            let ka = index_key(a);
            let kb = index_key(b);
            assert(ka.last() == digit_char(a % 10));
            assert(kb.last() == digit_char(b % 10));
            lemma_digit_char_injective(a % 10, b % 10);
            assert(ka.drop_last() =~= index_key(a / 10));
            assert(kb.drop_last() =~= index_key(b / 10));
            lemma_index_key_injective(a / 10, b / 10);
        }
    }
}

fn digit_str(d: usize) -> (r: &'static str)
    requires
        d < 10,
    ensures
        r@ == seq![digit_char(d as nat)],
{
    proof {
        reveal_strlit("0");
        reveal_strlit("1");
        reveal_strlit("2");
        reveal_strlit("3");
        reveal_strlit("4");
        reveal_strlit("5");
        reveal_strlit("6");
        reveal_strlit("7");
        reveal_strlit("8");
        reveal_strlit("9");
    }
    if d == 0 {
        "0"
    } else if d == 1 {
        "1"
    } else if d == 2 {
        "2"
    } else if d == 3 {
        "3"
    } else if d == 4 {
        "4"
    } else if d == 5 {
        "5"
    } else if d == 6 {
        "6"
    } else if d == 7 {
        "7"
    } else if d == 8 {
        "8"
    } else {
        "9"
    }
}

/// The key of position `n` in an array container: `n` in decimal.
pub fn index_key_string(n: usize) -> (r: String)
    ensures
        r@ == index_key(n as nat),
    decreases n,
{
    if n < 10 {
        digit_str(n).to_owned()
    } else {
        let prefix = index_key_string(n / 10);
        prefix.concat(digit_str(n % 10))
    }
}

} // verus!
