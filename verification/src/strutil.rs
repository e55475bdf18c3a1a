use vstd::prelude::*;

verus! {

/// Whether `prefix` is a prefix of `s`, over character sequences.
pub open spec fn spec_starts_with(s: Seq<char>, prefix: Seq<char>) -> bool {
    s.len() >= prefix.len() && s.subrange(0, prefix.len() as int) == prefix
}

/// Character-by-character equality of two string slices.
pub fn str_eq_str(a: &str, b: &str) -> (r: bool)
    ensures
        r == (a@ == b@),
{
    let an = a.unicode_len();
    let bn = b.unicode_len();
    if an != bn {
        return false;
    }
    for i in 0..an
        invariant
            an == a@.len(),
            bn == b@.len(),
            an == bn,
            forall|j: int| 0 <= j < i ==> a@[j] == b@[j],
    {
        let ca = a.get_char(i);
        let cb = b.get_char(i);
        if ca != cb {
            return false;
        }
    }
    proof {
        assert(a@ =~= b@);
    }
    true
}

/// ASCII lowercasing of one character: `A`–`Z` shift down by 32, every
/// other character is unchanged. Exchange symbols are ASCII tickers, so
/// this is the case folding the endpoint URLs need.
pub open spec fn spec_ascii_lower_char(c: char) -> char {
    if 65 <= c as int <= 90 {
        ((c as u8) + 32) as char
    } else {
        c
    }
}

/// The lowercasing map as a function value, shared by specs and proofs.
pub open spec fn lower_fn() -> spec_fn(char) -> char {
    |c: char| spec_ascii_lower_char(c)
}

fn lower_char_str(c: char) -> (r: Option<&'static str>)
    ensures
        match r {
            Some(d) => d@.len() == 1 && d@[0] == spec_ascii_lower_char(c),
            None => spec_ascii_lower_char(c) == c,
        },
{
    match c {
        'A' => {
            proof {
                reveal_strlit("a");
            }
            Some("a")
        },
        'B' => {
            proof {
                reveal_strlit("b");
            }
            Some("b")
        },
        'C' => {
            proof {
                reveal_strlit("c");
            }
            Some("c")
        },
        'D' => {
            proof {
                reveal_strlit("d");
            }
            Some("d")
        },
        'E' => {
            proof {
                reveal_strlit("e");
            }
            Some("e")
        },
        'F' => {
            proof {
                reveal_strlit("f");
            }
            Some("f")
        },
        'G' => {
            proof {
                reveal_strlit("g");
            }
            Some("g")
        },
        'H' => {
            proof {
                reveal_strlit("h");
            }
            Some("h")
        },
        'I' => {
            proof {
                reveal_strlit("i");
            }
            Some("i")
        },
        'J' => {
            proof {
                reveal_strlit("j");
            }
            Some("j")
        },
        'K' => {
            proof {
                reveal_strlit("k");
            }
            Some("k")
        },
        'L' => {
            proof {
                reveal_strlit("l");
            }
            Some("l")
        },
        'M' => {
            proof {
                reveal_strlit("m");
            }
            Some("m")
        },
        'N' => {
            proof {
                reveal_strlit("n");
            }
            Some("n")
        },
        'O' => {
            proof {
                reveal_strlit("o");
            }
            Some("o")
        },
        'P' => {
            proof {
                reveal_strlit("p");
            }
            Some("p")
        },
        'Q' => {
            proof {
                reveal_strlit("q");
            }
            Some("q")
        },
        'R' => {
            proof {
                reveal_strlit("r");
            }
            Some("r")
        },
        'S' => {
            proof {
                reveal_strlit("s");
            }
            Some("s")
        },
        'T' => {
            proof {
                reveal_strlit("t");
            }
            Some("t")
        },
        'U' => {
            proof {
                reveal_strlit("u");
            }
            Some("u")
        },
        'V' => {
            proof {
                reveal_strlit("v");
            }
            Some("v")
        },
        'W' => {
            proof {
                reveal_strlit("w");
            }
            Some("w")
        },
        'X' => {
            proof {
                reveal_strlit("x");
            }
            Some("x")
        },
        'Y' => {
            proof {
                reveal_strlit("y");
            }
            Some("y")
        },
        'Z' => {
            proof {
                reveal_strlit("z");
            }
            Some("z")
        },
        _ => None,
    }
}

/// Builds the ASCII-lowercased copy of a string slice.
pub fn ascii_lowercase(s: &str) -> (r: String)
    ensures
        r@ == s@.map_values(lower_fn()),
{
    let mut out = String::new();
    let n = s.unicode_len();
    for i in 0..n
        invariant
            n == s@.len(),
            out@ == s@.subrange(0, i as int).map_values(lower_fn()),
    {
        match lower_char_str(s.get_char(i)) {
            Some(d) => out.append(d),
            None => {
                let piece = s.substring_char(i, i + 1);
                out.append(piece);
            },
        }
        proof {
            assert(s@.subrange(0, i as int + 1) =~= s@.subrange(0, i as int).push(s@[i as int]));
            assert(s@.subrange(0, i as int + 1).map_values(lower_fn()) =~= s@.subrange(
                0,
                i as int,
            ).map_values(lower_fn()).push(spec_ascii_lower_char(s@[i as int])));
            assert(out@ =~= s@.subrange(0, i as int + 1).map_values(lower_fn()));
        }
    }
    proof {
        assert(s@.subrange(0, n as int) =~= s@);
    }
    out
}

/// Character-by-character prefix test.
pub fn str_starts_with(s: &str, prefix: &str) -> (r: bool)
    ensures
        r == spec_starts_with(s@, prefix@),
{
    let pn = prefix.unicode_len();
    let sn = s.unicode_len();
    if sn < pn {
        return false;
    }
    for i in 0..pn
        invariant
            pn == prefix@.len(),
            sn == s@.len(),
            sn >= pn,
            forall|j: int| 0 <= j < i ==> s@[j] == prefix@[j],
    {
        let cs = s.get_char(i);
        let cp = prefix.get_char(i);
        if cs != cp {
            proof {
                assert(s@.subrange(0, pn as int)[i as int] != prefix@[i as int]);
            }
            return false;
        }
    }
    proof {
        assert(s@.subrange(0, pn as int) =~= prefix@);
    }
    true
}

/// How a separator splits a character sequence: the (possibly empty)
/// fields between separators, in order. A sequence with no separator is
/// one field, so the result is never empty.
pub open spec fn spec_split(s: Seq<char>, sep: char) -> Seq<Seq<char>>
    decreases s.len(),
{
    if s.len() == 0 {
        seq![Seq::<char>::empty()]
    } else if s[0] == sep {
        seq![Seq::<char>::empty()] + spec_split(s.drop_first(), sep)
    } else {
        let rest = spec_split(s.drop_first(), sep);
        seq![seq![s[0]] + rest[0]] + rest.drop_first()
    }
}

pub proof fn lemma_split_nonempty(s: Seq<char>, sep: char)
    ensures
        spec_split(s, sep).len() >= 1,
    decreases s.len(),
{
    if s.len() > 0 {
        lemma_split_nonempty(s.drop_first(), sep);
    }
}

/// A partially read field `cur` glued onto the split of the remaining
/// input: the bookkeeping shape of the splitting loop.
spec fn spec_split_join(cur: Seq<char>, rest: Seq<Seq<char>>) -> Seq<Seq<char>>
    recommends
        rest.len() >= 1,
{
    seq![cur + rest[0]] + rest.drop_first()
}

/// Splits a string slice on a separator character, fields in order.
pub fn split_char(s: &str, sep: char) -> (r: Vec<String>)
    ensures
        r@.map_values(|f: String| f@) == spec_split(s@, sep),
{
    let n = s.unicode_len();
    let mut done: Vec<String> = Vec::new();
    let mut cur = String::new();
    let mut p: usize = 0;
    proof {
        lemma_split_nonempty(s@, sep);
        assert(s@.subrange(0, n as int) =~= s@);
        assert(spec_split_join(Seq::<char>::empty(), spec_split(s@, sep)) =~= spec_split(s@, sep));
    }
    while p < n
        invariant
            0 <= p <= n,
            n == s@.len(),
            done@.map_values(|f: String| f@) + spec_split_join(
                cur@,
                spec_split(s@.subrange(p as int, n as int), sep),
            ) == spec_split(s@, sep),
        decreases n - p,
    {
        let ghost tail = s@.subrange(p as int, n as int);
        proof {
            lemma_split_nonempty(tail, sep);
            assert(tail[0] == s@[p as int]);
            assert(tail.drop_first() =~= s@.subrange(p as int + 1, n as int));
            lemma_split_nonempty(tail.drop_first(), sep);
        }
        let c = s.get_char(p);
        let ghost cur0 = cur@;
        let ghost done0 = done@.map_values(|f: String| f@);
        if c == sep {
            done.push(cur);
            cur = String::new();
            proof {
                let split_rest = spec_split(s@.subrange(p as int + 1, n as int), sep);
                assert(spec_split(tail, sep) == seq![Seq::<char>::empty()] + split_rest);
                assert(done@.map_values(|f: String| f@) =~~= done0.push(cur0));
                assert(done@.map_values(|f: String| f@) + spec_split_join(cur@, split_rest)
                    =~~= done0 + spec_split_join(cur0, spec_split(tail, sep)));
            }
        } else {
            let piece = s.substring_char(p, p + 1);
            cur.append(piece);
            proof {
                let split_rest = spec_split(s@.subrange(p as int + 1, n as int), sep);
                assert(piece@ =~= seq![s@[p as int]]);
                assert(spec_split(tail, sep) == seq![seq![tail[0]] + split_rest[0]]
                    + split_rest.drop_first());
                assert(spec_split_join(cur@, split_rest) =~~= spec_split_join(
                    cur0,
                    spec_split(tail, sep),
                ));
            }
        }
        p = p + 1;
    }
    let ghost cur0 = cur@;
    let ghost done0 = done@.map_values(|f: String| f@);
    proof {
        assert(s@.subrange(n as int, n as int) =~= Seq::<char>::empty());
        assert(spec_split(s@.subrange(n as int, n as int), sep) == seq![Seq::<char>::empty()]);
        assert(spec_split_join(cur0, seq![Seq::<char>::empty()]) =~~= seq![cur0]);
    }
    done.push(cur);
    proof {
        assert(done@.map_values(|f: String| f@) =~~= done0 + seq![cur0]);
        assert(done@.map_values(|f: String| f@) =~~= spec_split(s@, sep));
    }
    done
}

} // verus!
