//! Derivation of the file paths the workers write to.
//!
//! Every per-attempt temporary file is named by the owning worker's identity,
//! and every crash artifact by the owning worker's identity and that worker's
//! crash count. The lemmas at the end show the naming collision-free: two
//! distinct workers never share a temporary path, and two distinct
//! (worker, crash count) pairs never share an artifact path, so no temporary
//! file is raced and no artifact is overwritten.

use vstd::prelude::*;
use vstd::string::StringExecFns;

verus! {

/// The decimal digit character for a value below ten.
pub open spec fn dec_digit(d: nat) -> char {
    if d == 0 {
        '0'
    } else if d == 1 {
        '1'
    } else if d == 2 {
        '2'
    } else if d == 3 {
        '3'
    } else if d == 4 {
        '4'
    } else if d == 5 {
        '5'
    } else if d == 6 {
        '6'
    } else if d == 7 {
        '7'
    } else if d == 8 {
        '8'
    } else {
        '9'
    }
}

/// The decimal representation of `n`, most significant digit first, with no
/// leading zeros (zero itself is a single digit).
pub open spec fn dec_rep(n: nat) -> Seq<char>
    decreases n,
{
    if n < 10 {
        seq![dec_digit(n)]
    } else {
        dec_rep(n / 10).push(dec_digit(n % 10))
    }
}

/// Whether `c` is a decimal digit character.
pub open spec fn is_dec_digit(c: char) -> bool {
    c == '0' || c == '1' || c == '2' || c == '3' || c == '4' || c == '5' || c == '6' || c == '7'
        || c == '8' || c == '9'
}

/// Whether every character of `s` is a decimal digit.
pub open spec fn all_digits(s: Seq<char>) -> bool {
    forall|i: int| 0 <= i < s.len() ==> is_dec_digit(#[trigger] s[i])
}

/// The temporary file path of the worker with the given identity: the seed
/// filename prefixed with the worker's number.
pub open spec fn tmp_path_spec(worker_id: u64, filename: Seq<char>) -> Seq<char> {
    "./output/tmp_"@ + dec_rep(worker_id as nat) + "_"@ + filename
}

/// The crash artifact path for the given worker identity and per-worker
/// crash count.
pub open spec fn crash_path_spec(worker_id: u64, count: u64, filename: Seq<char>) -> Seq<char> {
    "./output/crash_"@ + dec_rep(worker_id as nat) + "_"@ + dec_rep(count as nat) + "_"@ + filename
}

/// A decimal representation is never empty.
pub proof fn lemma_dec_rep_len(n: nat)
    ensures
        dec_rep(n).len() >= 1,
    decreases n,
{
    if n >= 10 {
        lemma_dec_rep_len(n / 10);
    }
}

/// A decimal representation holds digit characters only.
pub proof fn lemma_dec_rep_digits(n: nat)
    ensures
        all_digits(dec_rep(n)),
    decreases n,
{
    if n >= 10 {
        lemma_dec_rep_digits(n / 10);
        assert(dec_rep(n) == dec_rep(n / 10).push(dec_digit(n % 10)));
        assert forall|i: int| 0 <= i < dec_rep(n).len() implies is_dec_digit(
            #[trigger] dec_rep(n)[i],
        ) by {
            if i < dec_rep(n / 10).len() {
                assert(dec_rep(n)[i] == dec_rep(n / 10)[i]);
            }
        }
    }
}

/// Distinct values have distinct decimal representations.
pub proof fn lemma_dec_rep_injective(a: nat, b: nat)
    requires
        dec_rep(a) == dec_rep(b),
    ensures
        a == b,
    decreases a,
{
    lemma_dec_rep_len(a / 10);
    lemma_dec_rep_len(b / 10);
    if a < 10 && b < 10 {
        assert(dec_rep(a) == seq![dec_digit(a)]);
        assert(dec_rep(b) == seq![dec_digit(b)]);
        assert(dec_rep(a)[0] == dec_digit(a));
        assert(dec_rep(b)[0] == dec_digit(b));
        assert(dec_digit(a) == dec_digit(b));
        assert(a == b);
    } else if a < 10 {
        assert(dec_rep(a).len() == 1);
        assert(dec_rep(b).len() == dec_rep(b / 10).len() + 1);
        assert(dec_rep(b).len() >= 2);
        assert(false);
    } else if b < 10 {
        assert(dec_rep(b).len() == 1);
        assert(dec_rep(a).len() == dec_rep(a / 10).len() + 1);
        assert(dec_rep(a).len() >= 2);
        assert(false);
    } else {
        let pa = dec_rep(a / 10);
        let pb = dec_rep(b / 10);
        assert(pa.push(dec_digit(a % 10)) == pb.push(dec_digit(b % 10)));
        assert(pa.len() == pb.len());
        assert(pa =~= pb) by {
            assert forall|i: int| 0 <= i < pa.len() implies pa[i] == pb[i] by {
                assert(pa.push(dec_digit(a % 10))[i] == pa[i]);
                assert(pb.push(dec_digit(b % 10))[i] == pb[i]);
            }
        }
        lemma_dec_rep_injective(a / 10, b / 10);
        assert(pa.push(dec_digit(a % 10))[pa.len() as int] == dec_digit(a % 10));
        assert(pb.push(dec_digit(b % 10))[pb.len() as int] == dec_digit(b % 10));
        assert(dec_digit(a % 10) == dec_digit(b % 10));
        assert(a % 10 == b % 10);
        assert(a == 10 * (a / 10) + a % 10) by {
            vstd::arithmetic::div_mod::lemma_fundamental_div_mod(a as int, 10);
        }
        assert(b == 10 * (b / 10) + b % 10) by {
            vstd::arithmetic::div_mod::lemma_fundamental_div_mod(b as int, 10);
        }
        assert(a == b);
    }
}

/// A run of digits followed by an underscore separator determines where the
/// separator stands, so the digits and the remainder are both determined.
proof fn lemma_digit_sep_injective(a1: Seq<char>, b1: Seq<char>, a2: Seq<char>, b2: Seq<char>)
    requires
        all_digits(a1),
        all_digits(a2),
        a1 + "_"@ + b1 == a2 + "_"@ + b2,
    ensures
        a1 == a2,
        b1 == b2,
{
    reveal_strlit("_");
    let s = a1 + "_"@ + b1;
    let t = a2 + "_"@ + b2;
    assert(s[a1.len() as int] == '_');
    assert(t[a2.len() as int] == '_');
    if a1.len() < a2.len() {
        assert(t[a1.len() as int] == a2[a1.len() as int]);
        assert(is_dec_digit(a2[a1.len() as int]));
        assert(false);
    }
    if a2.len() < a1.len() {
        assert(s[a2.len() as int] == a1[a2.len() as int]);
        assert(is_dec_digit(a1[a2.len() as int]));
        assert(false);
    }
    assert(a1 =~= a2) by {
        assert forall|i: int| 0 <= i < a1.len() implies a1[i] == a2[i] by {
            assert(s[i] == a1[i]);
            assert(t[i] == a2[i]);
        }
    }
    assert(s == t);
    assert(s.len() == a1.len() + 1 + b1.len());
    assert(t.len() == a2.len() + 1 + b2.len());
    assert(b1.len() == b2.len());
    assert(b1 =~= b2) by {
        assert forall|i: int| 0 <= i < b1.len() implies b1[i] == b2[i] by {
            assert(s[a1.len() + 1 + i] == b1[i]);
            assert(t[a2.len() + 1 + i] == b2[i]);
        }
    }
}

/// Concurrent workers never share a temporary file path: the naming by
/// worker identity is collision-free for any set of worker identities.
pub proof fn lemma_tmp_paths_distinct(w1: u64, w2: u64, filename: Seq<char>)
    requires
        w1 != w2,
    ensures
        tmp_path_spec(w1, filename) != tmp_path_spec(w2, filename),
{
    if tmp_path_spec(w1, filename) == tmp_path_spec(w2, filename) {
        let p = "./output/tmp_"@;
        let s1 = dec_rep(w1 as nat) + "_"@ + filename;
        let s2 = dec_rep(w2 as nat) + "_"@ + filename;
        assert((p + (dec_rep(w1 as nat) + "_"@ + filename)) =~= tmp_path_spec(w1, filename));
        assert((p + (dec_rep(w2 as nat) + "_"@ + filename)) =~= tmp_path_spec(w2, filename));
        assert(s1 =~= s2) by {
            assert(s1.len() == s2.len());
            assert forall|i: int| 0 <= i < s1.len() implies s1[i] == s2[i] by {
                assert((p + s1)[p.len() + i] == s1[i]);
                assert((p + s2)[p.len() + i] == s2[i]);
            }
        }
        assert((dec_rep(w1 as nat) + "_"@ + filename) == (dec_rep(w2 as nat) + "_"@ + filename));
        lemma_dec_rep_digits(w1 as nat);
        lemma_dec_rep_digits(w2 as nat);
        lemma_digit_sep_injective(
            dec_rep(w1 as nat),
            filename,
            dec_rep(w2 as nat),
            filename,
        );
        lemma_dec_rep_injective(w1 as nat, w2 as nat);
        assert(false);
    }
}

/// Crash artifacts are never overwritten: two distinct pairs of worker
/// identity and per-worker crash count always give distinct artifact paths.
pub proof fn lemma_crash_paths_distinct(w1: u64, c1: u64, w2: u64, c2: u64, filename: Seq<char>)
    requires
        w1 != w2 || c1 != c2,
    ensures
        crash_path_spec(w1, c1, filename) != crash_path_spec(w2, c2, filename),
{
    if crash_path_spec(w1, c1, filename) == crash_path_spec(w2, c2, filename) {
        let p = "./output/crash_"@;
        let t1 = dec_rep(c1 as nat) + "_"@ + filename;
        let t2 = dec_rep(c2 as nat) + "_"@ + filename;
        let s1 = dec_rep(w1 as nat) + "_"@ + t1;
        let s2 = dec_rep(w2 as nat) + "_"@ + t2;
        assert((p + (dec_rep(w1 as nat) + "_"@ + t1)) =~= crash_path_spec(w1, c1, filename));
        assert((p + (dec_rep(w2 as nat) + "_"@ + t2)) =~= crash_path_spec(w2, c2, filename));
        assert(s1 =~= s2) by {
            assert(s1.len() == s2.len());
            assert forall|i: int| 0 <= i < s1.len() implies s1[i] == s2[i] by {
                assert((p + s1)[p.len() + i] == s1[i]);
                assert((p + s2)[p.len() + i] == s2[i]);
            }
        }
        lemma_dec_rep_digits(w1 as nat);
        lemma_dec_rep_digits(w2 as nat);
        lemma_digit_sep_injective(dec_rep(w1 as nat), t1, dec_rep(w2 as nat), t2);
        lemma_dec_rep_injective(w1 as nat, w2 as nat);
        lemma_dec_rep_digits(c1 as nat);
        lemma_dec_rep_digits(c2 as nat);
        lemma_digit_sep_injective(
            dec_rep(c1 as nat),
            filename,
            dec_rep(c2 as nat),
            filename,
        );
        lemma_dec_rep_injective(c1 as nat, c2 as nat);
        assert(false);
    }
}

/// The decimal digit character of a value below ten, as a one-character
/// string slice.
fn digit_str(d: u64) -> (r: &'static str)
    requires
        d < 10,
    ensures
        r@ =~= seq![dec_digit(d as nat)],
{
    proof {
        reveal_strlit("0");
        reveal_strlit("1");
        reveal_strlit("2");
        reveal_strlit("3");
        reveal_strlit("4");
        reveal_strlit("5");
        reveal_strlit("6");
        reveal_strlit("7");
        reveal_strlit("8");
        reveal_strlit("9");
    }
    if d == 0 {
        "0"
    } else if d == 1 {
        "1"
    } else if d == 2 {
        "2"
    } else if d == 3 {
        "3"
    } else if d == 4 {
        "4"
    } else if d == 5 {
        "5"
    } else if d == 6 {
        "6"
    } else if d == 7 {
        "7"
    } else if d == 8 {
        "8"
    } else {
        "9"
    }
}

/// Append the decimal representation of `n` to a string.
fn push_dec(s: &mut String, n: u64)
    ensures
        final(s)@ == old(s)@ + dec_rep(n as nat),
    decreases n,
{
    if n >= 10 {
        push_dec(s, n / 10);
        s.append(digit_str(n % 10));
        proof {
            assert(s@ =~= old(s)@ + dec_rep(n as nat));
        }
    } else {
        s.append(digit_str(n));
        proof {
            assert(s@ =~= old(s)@ + dec_rep(n as nat));
        }
    }
}

/// The temporary file path for the worker with the given identity, under the
/// output directory.
pub fn tmp_path(worker_id: u64, filename: &str) -> (r: String)
    ensures
        r@ == tmp_path_spec(worker_id, filename@),
{
    let mut s = String::from_str("./output/tmp_");
    push_dec(&mut s, worker_id);
    s.append("_");
    s.append(filename);
    proof {
        assert(s@ =~= tmp_path_spec(worker_id, filename@));
    }
    s
}

/// The crash artifact path for the given worker identity and per-worker
/// crash count, under the output directory.
pub fn crash_path(worker_id: u64, count: u64, filename: &str) -> (r: String)
    ensures
        r@ == crash_path_spec(worker_id, count, filename@),
{
    let mut s = String::from_str("./output/crash_");
    push_dec(&mut s, worker_id);
    s.append("_");
    push_dec(&mut s, count);
    s.append("_");
    s.append(filename);
    proof {
        assert(s@ =~= crash_path_spec(worker_id, count, filename@));
    }
    s
}

} // verus!
