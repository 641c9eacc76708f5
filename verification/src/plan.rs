//! The rotation plan: which file is renamed to which, and in what order.
use vstd::prelude::*;
use vstd::string::*;

verus! {

/// The character for a single decimal digit.
pub open spec fn digit_char(d: int) -> char {
    if d == 0 {
        '0'
    } else if d == 1 {
        '1'
    } else if d == 2 {
        '2'
    } else if d == 3 {
        '3'
    } else if d == 4 {
        '4'
    } else if d == 5 {
        '5'
    } else if d == 6 {
        '6'
    } else if d == 7 {
        '7'
    } else if d == 8 {
        '8'
    } else {
        '9'
    }
}

/// The decimal rendering of a non-negative integer, most significant digit
/// first, without leading zeros (except for the number zero itself).
pub open spec fn dec_digits(n: int) -> Seq<char>
    decreases n,
{
    if n < 10 {
        seq![digit_char(n)]
    } else {
        dec_digits(n / 10).push(digit_char(n % 10))
    }
}

/// The name of rotation slot `n` at a path: the path itself for slot 0 (the
/// primary file), `path.n` for every later slot.
pub open spec fn slot_name(path: Seq<char>, n: u16) -> Seq<char> {
    if n == 0 {
        path
    } else {
        path + seq!['.'] + dec_digits(n as int)
    }
}

fn digit_str(d: u16) -> (s: &'static str)
    requires
        d < 10,
    ensures
        s@ == seq![digit_char(d as int)],
{
    if d == 0 {
        proof {
            reveal_strlit("0");
        }
        assert("0"@ =~= seq![digit_char(0)]);
        "0"
    } else if d == 1 {
        proof {
            reveal_strlit("1");
        }
        assert("1"@ =~= seq![digit_char(1)]);
        "1"
    } else if d == 2 {
        proof {
            reveal_strlit("2");
        }
        assert("2"@ =~= seq![digit_char(2)]);
        "2"
    } else if d == 3 {
        proof {
            reveal_strlit("3");
        }
        assert("3"@ =~= seq![digit_char(3)]);
        "3"
    } else if d == 4 {
        proof {
            reveal_strlit("4");
        }
        assert("4"@ =~= seq![digit_char(4)]);
        "4"
    } else if d == 5 {
        proof {
            reveal_strlit("5");
        }
        assert("5"@ =~= seq![digit_char(5)]);
        "5"
    } else if d == 6 {
        proof {
            reveal_strlit("6");
        }
        assert("6"@ =~= seq![digit_char(6)]);
        "6"
    } else if d == 7 {
        proof {
            reveal_strlit("7");
        }
        assert("7"@ =~= seq![digit_char(7)]);
        "7"
    } else if d == 8 {
        proof {
            reveal_strlit("8");
        }
        assert("8"@ =~= seq![digit_char(8)]);
        "8"
    } else {
        proof {
            reveal_strlit("9");
        }
        assert("9"@ =~= seq![digit_char(9)]);
        "9"
    }
}

fn u16_digits(n: u16) -> (s: String)
    ensures
        s@ == dec_digits(n as int),
    decreases n,
{
    if n < 10 {
        String::from_str(digit_str(n))
    } else {
        let mut s = u16_digits(n / 10);
        s.append(digit_str(n % 10));
        assert(s@ =~= dec_digits(n as int));
        s
    }
}

fn make_slot_name(path: &str, n: u16) -> (s: String)
    ensures
        s@ == slot_name(path@, n),
{
    if n == 0 {
        String::from_str(path)
    } else {
        let mut s = String::from_str(path);
        proof {
            reveal_strlit(".");
        }
        s.append(".");
        let digits = u16_digits(n);
        s.append(digits.as_str());
        assert(s@ =~= slot_name(path@, n));
        s
    }
}

/// The ordered index pairs of the rotation scheme for a rotation count `r`:
/// `(n, n + 1)` for every source slot `n` whose destination `n + 1` is still a
/// retained slot (strictly below `r`), highest source first. For `r < 2` the
/// plan is empty.
pub open spec fn nr_pairs(r: u16) -> Seq<(u16, u16)> {
    if r < 2 {
        Seq::empty()
    } else {
        Seq::new((r - 1) as nat, |i: int| ((r - 2 - i) as u16, (r - 1 - i) as u16))
    }
}

/// The ordered `(source, destination)` slot index pairs whose renames rotate
/// the files at a path: slot `r - 2` moves to slot `r - 1`, down to slot `0`
/// (the primary file) moving to slot `1`.
pub fn rot_nr_scheme(num_rotate: u16) -> (pairs: Vec<(u16, u16)>)
    ensures
        pairs@ == nr_pairs(num_rotate),
{
    let mut pairs: Vec<(u16, u16)> = Vec::new();
    if num_rotate < 2 {
        assert(pairs@ =~= nr_pairs(num_rotate));
        return pairs;
    }
    let mut i: u16 = 0;
    while i < num_rotate - 1
        invariant
            num_rotate >= 2,
            i <= num_rotate - 1,
            pairs@ =~= nr_pairs(num_rotate).take(i as int),
        decreases num_rotate - 1 - i,
    {
        pairs.push((num_rotate - 2 - i, num_rotate - 1 - i));
        i = i + 1;
        assert(pairs@ =~= nr_pairs(num_rotate).take(i as int));
    }
    assert(pairs@ =~= nr_pairs(num_rotate));
    pairs
}

/// The ordered `(source, destination)` rename pairs of the rotation plan for
/// a path, as file names: the index pairs of `nr_pairs` mapped through
/// `slot_name`.
pub open spec fn file_pairs(path: Seq<char>, r: u16) -> Seq<(Seq<char>, Seq<char>)> {
    Seq::new(
        nr_pairs(r).len(),
        |i: int| (slot_name(path, nr_pairs(r)[i].0), slot_name(path, nr_pairs(r)[i].1)),
    )
}

/// The ordered rename pairs that rotate the files at `file_path`: applied in
/// order they move the file at `file_path.n` to `file_path.(n + 1)` for every
/// slot `n` below `num_rotate - 1`, highest slot first, and leave nothing at
/// `file_path` itself.
pub fn rot_file_scheme(file_path: &str, num_rotate: u16) -> (pairs: Vec<(String, String)>)
    ensures
        pairs@.len() == file_pairs(file_path@, num_rotate).len(),
        forall|i: int|
            0 <= i < pairs@.len() ==> (#[trigger] pairs@[i].0)@ == file_pairs(
                file_path@,
                num_rotate,
            )[i].0 && pairs@[i].1@ == file_pairs(file_path@, num_rotate)[i].1,
{
    let nr = rot_nr_scheme(num_rotate);
    let mut pairs: Vec<(String, String)> = Vec::new();
    let mut i: usize = 0;
    while i < nr.len()
        invariant
            nr@ == nr_pairs(num_rotate),
            i <= nr@.len(),
            pairs@.len() == i,
            forall|j: int|
                0 <= j < i ==> (#[trigger] pairs@[j].0)@ == file_pairs(file_path@, num_rotate)[j].0
                    && pairs@[j].1@ == file_pairs(file_path@, num_rotate)[j].1,
        decreases nr@.len() - i,
    {
        let (from, to) = nr[i];
        let from_name = make_slot_name(file_path, from);
        let to_name = make_slot_name(file_path, to);
        pairs.push((from_name, to_name));
        i = i + 1;
    }
    pairs
}

/// A rotation count of 0 or 1 has no slot to shift into: the plan is empty.
pub proof fn lemma_plan_empty(r: u16)
    requires
        r < 2,
    ensures
        nr_pairs(r) == Seq::<(u16, u16)>::empty(),
{
}

/// For a rotation count of at least 2, the plan holds exactly `r - 1` pairs:
/// pair `i` is `(r - 2 - i, r - 1 - i)`, so each pair moves a slot to the
/// next one up, the source indices are strictly descending, and the
/// destination indices cover `1 ..= r - 1` exactly once each.
pub proof fn lemma_plan_shape(r: u16)
    requires
        r >= 2,
    ensures
        nr_pairs(r).len() == r - 1,
        forall|i: int|
            0 <= i < r - 1 ==> (#[trigger] nr_pairs(r)[i]) == (((r - 2 - i) as u16, (
            r - 1 - i) as u16)),
        forall|i: int| 0 <= i < r - 1 ==> (#[trigger] nr_pairs(r)[i]).0 + 1 == nr_pairs(r)[i].1,
        forall|i: int, j: int|
            0 <= i < j < r - 1 ==> (#[trigger] nr_pairs(r)[i]).0 > (#[trigger] nr_pairs(r)[j]).0,
        forall|i: int, j: int|
            0 <= i < r - 1 && 0 <= j < r - 1 && i != j ==> (#[trigger] nr_pairs(r)[i]).1 != (
            #[trigger] nr_pairs(r)[j]).1,
        forall|d: u16| 1 <= d <= r - 1 ==> (#[trigger] nr_pairs(r)[r - 1 - d]).1 == d,
{
}

proof fn lemma_dec_len(n: int)
    requires
        n >= 0,
    ensures
        dec_digits(n).len() >= 1,
        n >= 10 ==> dec_digits(n).len() >= 2,
    decreases n,
{
    if n >= 10 {
        lemma_dec_len(n / 10);
    }
}

proof fn lemma_dec_digits_injective(a: int, b: int)
    requires
        a >= 0,
        b >= 0,
        a != b,
    ensures
        dec_digits(a) != dec_digits(b),
    decreases a + b,
{
    if a < 10 && b < 10 {
        assert(digit_char(a) != digit_char(b));
        if dec_digits(a) == dec_digits(b) {
            assert(dec_digits(a)[0] == dec_digits(b)[0]);
            assert(false);
        }
    } else if a < 10 {
        lemma_dec_len(b);
        assert(dec_digits(a).len() == 1);
    } else if b < 10 {
        lemma_dec_len(a);
        assert(dec_digits(b).len() == 1);
    } else {
        if dec_digits(a) == dec_digits(b) {
            let da = dec_digits(a / 10);
            let db = dec_digits(b / 10);
            assert(dec_digits(a) == da.push(digit_char(a % 10)));
            assert(dec_digits(b) == db.push(digit_char(b % 10)));
            assert(da.push(digit_char(a % 10)).last() == digit_char(a % 10));
            assert(db.push(digit_char(b % 10)).last() == digit_char(b % 10));
            if a % 10 != b % 10 {
                assert(digit_char(a % 10) != digit_char(b % 10));
                assert(false);
            }
            assert(da =~= dec_digits(a).drop_last());
            assert(db =~= dec_digits(b).drop_last());
            if a / 10 != b / 10 {
                lemma_dec_digits_injective(a / 10, b / 10);
                assert(false);
            }
            assert(a == 10 * (a / 10) + a % 10);
            assert(b == 10 * (b / 10) + b % 10);
            assert(false);
        }
    }
}

/// Distinct slots at one path carry distinct names.
pub proof fn lemma_slot_name_injective(path: Seq<char>, a: u16, b: u16)
    requires
        a != b,
    ensures
        slot_name(path, a) != slot_name(path, b),
{
    if a == 0 {
        lemma_dec_len(b as int);
        assert(slot_name(path, b).len() > path.len());
    } else if b == 0 {
        lemma_dec_len(a as int);
        assert(slot_name(path, a).len() > path.len());
    } else {
        if slot_name(path, a) == slot_name(path, b) {
            let da = dec_digits(a as int);
            let db = dec_digits(b as int);
            assert(slot_name(path, a) == path + seq!['.'] + da);
            assert(slot_name(path, b) == path + seq!['.'] + db);
            assert((path + seq!['.'] + da).len() == path.len() + 1 + da.len());
            assert((path + seq!['.'] + db).len() == path.len() + 1 + db.len());
            assert(da.len() == db.len());
            assert forall|i: int| 0 <= i < da.len() implies da[i] == db[i] by {
                assert((path + seq!['.'] + da)[path.len() + 1 + i] == da[i]);
                assert((path + seq!['.'] + db)[path.len() + 1 + i] == db[i]);
            }
            assert(da =~= db);
            lemma_dec_digits_injective(a as int, b as int);
            assert(false);
        }
    }
}

/// Planning is pure: any two plans drawn from the same path and rotation
/// count — stated here as two sequences that each satisfy the contract of
/// `rot_file_scheme` — are the same sequence of rename pairs.
pub proof fn lemma_plan_idempotent(
    path: Seq<char>,
    r: u16,
    a: Seq<(Seq<char>, Seq<char>)>,
    b: Seq<(Seq<char>, Seq<char>)>,
)
    requires
        a.len() == file_pairs(path, r).len(),
        forall|i: int| 0 <= i < a.len() ==> #[trigger] a[i] == file_pairs(path, r)[i],
        b.len() == file_pairs(path, r).len(),
        forall|i: int| 0 <= i < b.len() ==> #[trigger] b[i] == file_pairs(path, r)[i],
    ensures
        a == b,
{
    assert(a =~= b);
}

/// A model filesystem for the plan: file names mapped to their contents.
/// One rename moves the content at `from` to `to`, clobbering whatever was at
/// `to`; a rename whose source is absent changes nothing.
pub open spec fn rename_one(
    fs: Map<Seq<char>, Seq<u8>>,
    from: Seq<char>,
    to: Seq<char>,
) -> Map<Seq<char>, Seq<u8>> {
    if fs.dom().contains(from) {
        fs.insert(to, fs[from]).remove(from)
    } else {
        fs
    }
}

/// The filesystem after the renames of `pairs` are applied in order.
pub open spec fn apply_renames(
    fs: Map<Seq<char>, Seq<u8>>,
    pairs: Seq<(Seq<char>, Seq<char>)>,
) -> Map<Seq<char>, Seq<u8>>
    decreases pairs.len(),
{
    if pairs.len() == 0 {
        fs
    } else {
        apply_renames(rename_one(fs, pairs[0].0, pairs[0].1), pairs.drop_first())
    }
}

/// No rename of the plan destroys retained data: on a filesystem holding the
/// primary file and slots up to `r - 2`, applying the plan in its given order
/// moves every such slot's content intact to the next slot up, vacates the
/// primary path, and touches no other name. (Only the content previously at
/// slot `r - 1`, outside the retained window, is aged out.)
pub proof fn lemma_plan_rotates(fs: Map<Seq<char>, Seq<u8>>, path: Seq<char>, r: u16)
    requires
        r >= 2,
        forall|n: u16| n <= r - 2 ==> fs.dom().contains(#[trigger] slot_name(path, n)),
    ensures
        ({
            let fs2 = apply_renames(fs, file_pairs(path, r));
            &&& forall|n: u16|
                n <= r - 2 ==> fs2.dom().contains(#[trigger] slot_name(path, (n + 1) as u16))
                    && fs2[slot_name(path, (n + 1) as u16)] == fs[slot_name(path, n)]
            &&& !fs2.dom().contains(slot_name(path, 0))
            &&& forall|name: Seq<char>|
                (forall|n: u16| n <= r - 1 ==> name != #[trigger] slot_name(path, n)) ==> (
                #[trigger] fs2.dom().contains(name) == fs.dom().contains(name) && (fs.dom().contains(
                    name,
                ) ==> fs2[name] == fs[name]))
        }),
    decreases r,
{
    let plan = file_pairs(path, r);
    let top_src = slot_name(path, (r - 2) as u16);
    let top_dst = slot_name(path, (r - 1) as u16);
    assert(nr_pairs(r)[0] == (((r - 2) as u16, (r - 1) as u16)));
    assert(plan[0] == (top_src, top_dst));
    let fs1 = rename_one(fs, top_src, top_dst);
    lemma_slot_name_injective(path, (r - 2) as u16, (r - 1) as u16);
    assert(apply_renames(fs, plan) == apply_renames(fs1, plan.drop_first()));
    if r == 2 {
        assert(plan.len() == 1);
        assert(plan.drop_first().len() == 0);
        let fs2 = apply_renames(fs, plan);
        assert(fs2 == fs1);
        assert forall|n: u16| n <= r - 2 implies fs2.dom().contains(
            #[trigger] slot_name(path, (n + 1) as u16),
        ) && fs2[slot_name(path, (n + 1) as u16)] == fs[slot_name(path, n)] by {
            assert(n == 0);
        }
    } else {
        assert(plan.drop_first() =~= file_pairs(path, (r - 1) as u16)) by {
            assert forall|i: int| 0 <= i < file_pairs(path, (r - 1) as u16).len() implies plan.drop_first()[i]
                == file_pairs(path, (r - 1) as u16)[i] by {
                assert(nr_pairs(r)[i + 1] == nr_pairs((r - 1) as u16)[i]);
            }
        }
        assert forall|n: u16| n <= (r - 1) - 2 implies fs1.dom().contains(
            #[trigger] slot_name(path, n),
        ) by {
            lemma_slot_name_injective(path, n, (r - 2) as u16);
            lemma_slot_name_injective(path, n, (r - 1) as u16);
        }
        lemma_plan_rotates(fs1, path, (r - 1) as u16);
        let fs2 = apply_renames(fs1, file_pairs(path, (r - 1) as u16));
        assert(apply_renames(fs, plan) == fs2);
        assert forall|n: u16| n <= r - 2 implies fs2.dom().contains(
            #[trigger] slot_name(path, (n + 1) as u16),
        ) && fs2[slot_name(path, (n + 1) as u16)] == fs[slot_name(path, n)] by {
            if n <= r - 3 {
                lemma_slot_name_injective(path, n, (r - 2) as u16);
                lemma_slot_name_injective(path, n, (r - 1) as u16);
                assert(fs1[slot_name(path, n)] == fs[slot_name(path, n)]);
            } else {
                assert(n == r - 2);
                assert forall|m: u16| m <= (r - 1) - 1 implies top_dst != #[trigger] slot_name(
                    path,
                    m,
                ) by {
                    lemma_slot_name_injective(path, (r - 1) as u16, m);
                }
                assert(fs2.dom().contains(top_dst) == fs1.dom().contains(top_dst));
                assert(fs2[top_dst] == fs1[top_dst]);
                assert(fs1[top_dst] == fs[top_src]);
            }
        }
        assert forall|name: Seq<char>|
            (forall|n: u16| n <= r - 1 ==> name != #[trigger] slot_name(path, n)) implies (
        #[trigger] fs2.dom().contains(name) == fs.dom().contains(name) && (fs.dom().contains(name)
            ==> fs2[name] == fs[name])) by {
            assert(name != top_src);
            assert(name != top_dst);
            assert(fs1.dom().contains(name) == fs.dom().contains(name));
            assert(fs.dom().contains(name) ==> fs1[name] == fs[name]);
        }
    }
}

} // verus!
