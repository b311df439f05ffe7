//! Edit distance between task names.
//!
//! Distance is measured per character (Unicode code point): names are
//! compared as sequences of `char`, so a single multi-byte character
//! counts as one edit rather than several. Names are text a user
//! types, and a typo swaps or drops characters, not bytes.

use vstd::prelude::*;
use vstd::string::StrSliceExecFns;

verus! {

/// The smaller of three values.
pub open spec fn min3(x: nat, y: nat, z: nat) -> nat {
    if x <= y && x <= z {
        x
    } else if y <= z {
        y
    } else {
        z
    }
}

/// Minimum number of single-character insertions, deletions and
/// substitutions needed to turn the first `i` characters of `a` into the
/// first `j` characters of `b`.
pub open spec fn ed_prefix(a: Seq<char>, b: Seq<char>, i: nat, j: nat) -> nat
    decreases i + j,
{
    if i == 0 {
        j
    } else if j == 0 {
        i
    } else if a[i - 1] == b[j - 1] {
        ed_prefix(a, b, (i - 1) as nat, (j - 1) as nat)
    } else {
        1 + min3(
            ed_prefix(a, b, (i - 1) as nat, j),
            ed_prefix(a, b, i, (j - 1) as nat),
            ed_prefix(a, b, (i - 1) as nat, (j - 1) as nat),
        )
    }
}

/// Minimum number of single-character insertions, deletions and
/// substitutions needed to turn `a` into `b`.
pub open spec fn edit_distance(a: Seq<char>, b: Seq<char>) -> nat {
    ed_prefix(a, b, a.len(), b.len())
}

/// The distance over prefixes never exceeds the longer prefix length.
proof fn lemma_ed_prefix_le_max(a: Seq<char>, b: Seq<char>, i: nat, j: nat)
    ensures
        ed_prefix(a, b, i, j) <= if i >= j { i } else { j },
    decreases i + j,
{
    if i == 0 || j == 0 {
    } else if a[i - 1] == b[j - 1] {
        lemma_ed_prefix_le_max(a, b, (i - 1) as nat, (j - 1) as nat);
    } else {
        lemma_ed_prefix_le_max(a, b, (i - 1) as nat, j);
        lemma_ed_prefix_le_max(a, b, i, (j - 1) as nat);
        lemma_ed_prefix_le_max(a, b, (i - 1) as nat, (j - 1) as nat);
    }
}

proof fn lemma_ed_prefix_self(a: Seq<char>, k: nat)
    ensures
        ed_prefix(a, a, k, k) == 0,
    decreases k,
{
    if k > 0 {
        lemma_ed_prefix_self(a, (k - 1) as nat);
    }
}

/// A name is at distance zero from itself.
pub proof fn lemma_distance_self(a: Seq<char>)
    ensures
        edit_distance(a, a) == 0,
{
    lemma_ed_prefix_self(a, a.len());
}

proof fn lemma_ed_prefix_sym(a: Seq<char>, b: Seq<char>, i: nat, j: nat)
    ensures
        ed_prefix(a, b, i, j) == ed_prefix(b, a, j, i),
    decreases i + j,
{
    if i == 0 || j == 0 {
    } else if a[i - 1] == b[j - 1] {
        lemma_ed_prefix_sym(a, b, (i - 1) as nat, (j - 1) as nat);
    } else {
        lemma_ed_prefix_sym(a, b, (i - 1) as nat, j);
        lemma_ed_prefix_sym(a, b, i, (j - 1) as nat);
        lemma_ed_prefix_sym(a, b, (i - 1) as nat, (j - 1) as nat);
    }
}

/// The distance is symmetric: edits from `a` to `b` mirror edits from
/// `b` to `a`.
pub proof fn lemma_distance_symmetric(a: Seq<char>, b: Seq<char>)
    ensures
        edit_distance(a, b) == edit_distance(b, a),
{
    lemma_ed_prefix_sym(a, b, a.len(), b.len());
}

proof fn lemma_ed_prefix_zero(a: Seq<char>, b: Seq<char>, i: nat, j: nat)
    requires
        i <= a.len(),
        j <= b.len(),
        ed_prefix(a, b, i, j) == 0,
    ensures
        i == j,
        forall|k: int| 0 <= k < i ==> a[k] == b[k],
    decreases i + j,
{
    if i == 0 || j == 0 {
    } else if a[i - 1] == b[j - 1] {
        lemma_ed_prefix_zero(a, b, (i - 1) as nat, (j - 1) as nat);
    }
}

/// The distance between two names is zero exactly when they are equal.
pub proof fn lemma_distance_zero(a: Seq<char>, b: Seq<char>)
    ensures
        edit_distance(a, b) == 0 <==> a == b,
{
    if edit_distance(a, b) == 0 {
        lemma_ed_prefix_zero(a, b, a.len(), b.len());
        assert(a =~= b);
    }
    if a == b {
        lemma_ed_prefix_self(a, a.len());
    }
}

/// The characters of `s`, in order, as a vector.
pub fn chars_of(s: &str) -> (v: Vec<char>)
    ensures
        v@ == s@,
{
    let n = s.unicode_len();
    let mut v: Vec<char> = Vec::new();
    let mut i: usize = 0;
    while i < n
        invariant
            i <= n,
            n == s@.len(),
            v@ =~= s@.subrange(0, i as int),
        decreases n - i,
    {
        v.push(s.get_char(i));
        i = i + 1;
    }
    assert(v@ =~= s@);
    v
}

/// Classic dynamic-programming edit distance between two names,
/// measured in single-character edits.
pub fn levenshtein_distance(s1: String, s2: String) -> (d: usize)
    ensures
        d == edit_distance(s1@, s2@),
{
    let a = chars_of(s1.as_str());
    let b = chars_of(s2.as_str());
    let n1 = a.len();
    let n2 = b.len();

    let mut dp: Vec<Vec<usize>> = Vec::new();
    let mut i: usize = 0;
    loop
        invariant_except_break
            dp@.len() == i,
        invariant
            i <= n1,
            n1 == a@.len(),
            n2 == b@.len(),
            a@ == s1@,
            b@ == s2@,
            forall|r: int| 0 <= r < i ==> #[trigger] dp@[r]@.len() == n2 + 1,
            forall|r: int, c: int|
                0 <= r < i && 0 <= c <= n2 ==> #[trigger] dp@[r]@[c] == ed_prefix(
                    a@, b@, r as nat, c as nat),
        ensures
            dp@.len() == n1 + 1,
            forall|r: int| 0 <= r <= n1 ==> #[trigger] dp@[r]@.len() == n2 + 1,
            forall|r: int, c: int|
                0 <= r <= n1 && 0 <= c <= n2 ==> #[trigger] dp@[r]@[c] == ed_prefix(
                    a@, b@, r as nat, c as nat),
        decreases n1 - i,
    {
        let mut row: Vec<usize> = Vec::new();
        let mut j: usize = 0;
        loop
            invariant_except_break
                row@.len() == j,
            invariant
                j <= n2,
                i <= n1,
                n1 == a@.len(),
                n2 == b@.len(),
                dp@.len() == i,
                forall|r: int| 0 <= r < i ==> #[trigger] dp@[r]@.len() == n2 + 1,
                forall|r: int, c: int|
                    0 <= r < i && 0 <= c <= n2 ==> #[trigger] dp@[r]@[c] == ed_prefix(
                        a@, b@, r as nat, c as nat),
                forall|c: int| 0 <= c < j ==> row@[c] == ed_prefix(a@, b@, i as nat, c as nat),
            ensures
                row@.len() == n2 + 1,
                dp@.len() == i,
                forall|c: int| 0 <= c <= n2 ==> row@[c] == ed_prefix(a@, b@, i as nat, c as nat),
            decreases n2 - j,
        {
            let v: usize;
            if i == 0 {
                v = j;
            } else if j == 0 {
                v = i;
            } else if a[i - 1] == b[j - 1] {
                v = dp[i - 1][j - 1];
            } else {
                let x = dp[i - 1][j];
                let y = row[j - 1];
                let z = dp[i - 1][j - 1];
                let m = if x <= y && x <= z {
                    x
                } else if y <= z {
                    y
                } else {
                    z
                };
                proof {
                    lemma_ed_prefix_le_max(a@, b@, i as nat, j as nat);
                }
                v = 1 + m;
            }
            assert(v == ed_prefix(a@, b@, i as nat, j as nat));
            row.push(v);
            if j == n2 {
                break ;
            }
            j = j + 1;
        }
        dp.push(row);
        if i == n1 {
            break ;
        }
        i = i + 1;
    }
    dp[n1][n2]
}

} // verus!
