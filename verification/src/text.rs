//! Small verified text helpers: string equality, decimal rendering of
//! numbers, and quoted-identifier syntax.
//!
//! Identifier quoting is the primary injection defense: identifiers
//! cannot be parameter-bound, so every one of them is emitted wrapped in
//! double quotes, with embedded double quotes doubled.

use vstd::prelude::*;

verus! {

/// Whether two string slices hold the same characters.
pub fn str_eq(a: &str, b: &str) -> (r: bool)
    ensures
        r == (a@ == b@),
{
    let x = a.to_owned();
    let y = b.to_owned();
    x == y
}

/// The decimal digit character for `d`.
pub open spec fn digit_char(d: nat) -> char {
    if d == 0 {
        '0'
    } else if d == 1 {
        '1'
    } else if d == 2 {
        '2'
    } else if d == 3 {
        '3'
    } else if d == 4 {
        '4'
    } else if d == 5 {
        '5'
    } else if d == 6 {
        '6'
    } else if d == 7 {
        '7'
    } else if d == 8 {
        '8'
    } else {
        '9'
    }
}

/// The decimal rendering of `n`, without leading zeros (except for `0`
/// itself).
pub open spec fn dec_str(n: nat) -> Seq<char>
    decreases n,
{
    if n < 10 {
        seq![digit_char(n)]
    } else {
        dec_str(n / 10).push(digit_char(n % 10))
    }
}

/// The one-character string slice for decimal digit `d`.
fn digit_str(d: u64) -> (r: &'static str)
    requires
        d < 10,
    ensures
        r@ == seq![digit_char(d as nat)],
{
    let r: &'static str = if d == 0 {
        proof {
            reveal_strlit("0");
        }
        "0"
    } else if d == 1 {
        proof {
            reveal_strlit("1");
        }
        "1"
    } else if d == 2 {
        proof {
            reveal_strlit("2");
        }
        "2"
    } else if d == 3 {
        proof {
            reveal_strlit("3");
        }
        "3"
    } else if d == 4 {
        proof {
            reveal_strlit("4");
        }
        "4"
    } else if d == 5 {
        proof {
            reveal_strlit("5");
        }
        "5"
    } else if d == 6 {
        proof {
            reveal_strlit("6");
        }
        "6"
    } else if d == 7 {
        proof {
            reveal_strlit("7");
        }
        "7"
    } else if d == 8 {
        proof {
            reveal_strlit("8");
        }
        "8"
    } else {
        proof {
            reveal_strlit("9");
        }
        "9"
    };
    proof {
        assert(r@ =~= seq![digit_char(d as nat)]);
    }
    r
}

/// Renders `n` in decimal.
pub fn u64_to_string(n: u64) -> (r: String)
    ensures
        r@ == dec_str(n as nat),
    decreases n,
{
    if n < 10 {
        digit_str(n).to_owned()
    } else {
        let mut s = u64_to_string(n / 10);
        s.append(digit_str(n % 10));
        proof {
            assert(s@ =~= dec_str((n / 10) as nat).push(digit_char((n % 10) as nat)));
        }
        s
    }
}

/// `s` with every double-quote character doubled.
pub open spec fn escape_quotes(s: Seq<char>) -> Seq<char>
    decreases s.len(),
{
    if s.len() == 0 {
        Seq::empty()
    } else if s[0] == '"' {
        seq!['"', '"'] + escape_quotes(s.skip(1))
    } else {
        seq![s[0]] + escape_quotes(s.skip(1))
    }
}

/// The inverse of [`escape_quotes`]: collapses each doubled quote.
pub open spec fn unescape_quotes(s: Seq<char>) -> Seq<char>
    decreases s.len(),
{
    if s.len() == 0 {
        Seq::empty()
    } else if s[0] == '"' && s.len() >= 2 {
        seq!['"'] + unescape_quotes(s.skip(2))
    } else if s[0] == '"' {
        seq!['"']
    } else {
        seq![s[0]] + unescape_quotes(s.skip(1))
    }
}

/// The quoted-identifier form of `s`: wrapped in double quotes, inner
/// double quotes doubled.
pub open spec fn spec_quote_ident(s: Seq<char>) -> Seq<char> {
    seq!['"'] + escape_quotes(s) + seq!['"']
}

/// Escaping distributes over concatenation.
pub proof fn lemma_escape_concat(a: Seq<char>, b: Seq<char>)
    ensures
        escape_quotes(a + b) == escape_quotes(a) + escape_quotes(b),
    decreases a.len(),
{
    if a.len() == 0 {
        assert(a + b =~= b);
        assert(escape_quotes(a) + escape_quotes(b) =~= escape_quotes(b));
    } else {
        lemma_escape_concat(a.skip(1), b);
        assert((a + b).skip(1) =~= a.skip(1) + b);
        assert((a + b)[0] == a[0]);
        assert(escape_quotes(a + b) =~= escape_quotes(a) + escape_quotes(b));
    }
}

/// A sequence without double quotes escapes to itself.
pub proof fn lemma_escape_plain(s: Seq<char>)
    requires
        forall|i: int| 0 <= i < s.len() ==> s[i] != '"',
    ensures
        escape_quotes(s) == s,
    decreases s.len(),
{
    if s.len() > 0 {
        lemma_escape_plain(s.skip(1));
        assert(escape_quotes(s) =~= s);
    }
}

/// Unescaping undoes escaping: no information is lost by quoting.
pub proof fn lemma_unescape_escape(s: Seq<char>)
    ensures
        unescape_quotes(escape_quotes(s)) == s,
    decreases s.len(),
{
    if s.len() == 0 {
    } else if s[0] == '"' {
        lemma_unescape_escape(s.skip(1));
        assert(escape_quotes(s).skip(2) =~= escape_quotes(s.skip(1)));
        assert(unescape_quotes(escape_quotes(s)) =~= s);
    } else {
        lemma_unescape_escape(s.skip(1));
        assert(escape_quotes(s).skip(1) =~= escape_quotes(s.skip(1)));
        assert(unescape_quotes(escape_quotes(s)) =~= s);
    }
}

/// Quoting is injective: two identifiers that quote to the same text are
/// the same identifier, so no identifier can smuggle in the quoted form
/// of another.
pub proof fn lemma_quote_ident_injective(a: Seq<char>, b: Seq<char>)
    requires
        spec_quote_ident(a) == spec_quote_ident(b),
    ensures
        a == b,
{
    let qa = spec_quote_ident(a);
    let qb = spec_quote_ident(b);
    assert(escape_quotes(a) =~= qa.subrange(1, qa.len() - 1));
    assert(escape_quotes(b) =~= qb.subrange(1, qb.len() - 1));
    lemma_unescape_escape(a);
    lemma_unescape_escape(b);
}

/// Emits the quoted-identifier form of `name`.
pub fn quote_ident(name: &str) -> (r: String)
    ensures
        r@ == spec_quote_ident(name@),
{
    let len = name.unicode_len();
    let mut out = String::from_str("\"");
    proof {
        reveal_strlit("\"");
        assert(out@ =~= seq!['"'] + escape_quotes(name@.take(0)));
    }
    let mut start: usize = 0;
    let mut i: usize = 0;
    while i < len
        invariant
            start <= i <= len,
            len == name@.len(),
            out@ == seq!['"'] + escape_quotes(name@.take(start as int)),
            forall|k: int| start <= k < i ==> name@[k] != '"',
        decreases len - i,
    {
        if name.get_char(i) == '"' {
            out.append(name.substring_char(start, i + 1));
            out.append("\"");
            proof {
                reveal_strlit("\"");
                let s = name@;
                let run = s.subrange(start as int, i as int);
                assert(s.take(i as int + 1) =~= s.take(start as int) + s.subrange(
                    start as int,
                    i as int + 1,
                ));
                lemma_escape_concat(s.take(start as int), s.subrange(start as int, i as int + 1));
                assert(s.subrange(start as int, i as int + 1) =~= run + seq!['"']);
                lemma_escape_concat(run, seq!['"']);
                lemma_escape_plain(run);
                assert(seq!['"'].skip(1) =~= Seq::<char>::empty());
                assert(escape_quotes(Seq::<char>::empty()) =~= Seq::<char>::empty());
                assert(escape_quotes(seq!['"']) =~= seq!['"', '"']);
                assert(out@ =~= seq!['"'] + escape_quotes(s.take(i as int + 1)));
            }
            start = i + 1;
        }
        i += 1;
    }
    out.append(name.substring_char(start, len));
    out.append("\"");
    proof {
        reveal_strlit("\"");
        let s = name@;
        let run = s.subrange(start as int, len as int);
        assert(s =~= s.take(start as int) + run);
        lemma_escape_concat(s.take(start as int), run);
        lemma_escape_plain(run);
        assert(out@ =~= spec_quote_ident(s));
    }
    out
}

} // verus!
