//! The artifact cache: the canonical file name for a fingerprint, the cheap
//! validity check, and garbage collection over a model of the cache
//! directory's listing. The file system itself stays outside this crate; it
//! hands in names and sizes and carries out the deletions this module
//! decides.

use vstd::prelude::*;
use vstd::string::*;

verus! {

/// The hexadecimal digit `i` (counting from the most significant) of `h`.
pub open spec fn nibble_of(h: u64, i: int) -> u64 {
    (h >> ((4 * (15 - i)) as u64)) & 0xf
}

/// The character for one hexadecimal digit; values past fifteen fall back
/// to 'f'.
pub open spec fn hex_digit_char(v: u64) -> char {
    if v == 0 {
        '0'
    } else if v == 1 {
        '1'
    } else if v == 2 {
        '2'
    } else if v == 3 {
        '3'
    } else if v == 4 {
        '4'
    } else if v == 5 {
        '5'
    } else if v == 6 {
        '6'
    } else if v == 7 {
        '7'
    } else if v == 8 {
        '8'
    } else if v == 9 {
        '9'
    } else if v == 10 {
        'a'
    } else if v == 11 {
        'b'
    } else if v == 12 {
        'c'
    } else if v == 13 {
        'd'
    } else if v == 14 {
        'e'
    } else {
        'f'
    }
}

/// `h` written as sixteen hexadecimal digits, most significant first.
pub open spec fn hex16(h: u64) -> Seq<char> {
    Seq::new(16, |i: int| hex_digit_char(nibble_of(h, i)))
}

/// The canonical artifact name for a fingerprint. The fixed prefix and
/// suffix mark the file as managed by this cache; the sixteen fixed-width
/// digits make the mapping injective.
pub open spec fn spec_cache_file_name(h: u64) -> Seq<char> {
    "help_"@ + hex16(h) + ".png"@
}

/// The canonical artifact path: the cache directory, a separator, and the
/// canonical name.
pub open spec fn spec_cache_path(dir: Seq<char>, h: u64) -> Seq<char> {
    dir + "/"@ + spec_cache_file_name(h)
}

fn hex_digit_str(v: u64) -> (r: &'static str)
    ensures
        r@ == seq![hex_digit_char(v)],
{
    let r = if v == 0 {
        "0"
    } else if v == 1 {
        "1"
    } else if v == 2 {
        "2"
    } else if v == 3 {
        "3"
    } else if v == 4 {
        "4"
    } else if v == 5 {
        "5"
    } else if v == 6 {
        "6"
    } else if v == 7 {
        "7"
    } else if v == 8 {
        "8"
    } else if v == 9 {
        "9"
    } else if v == 10 {
        "a"
    } else if v == 11 {
        "b"
    } else if v == 12 {
        "c"
    } else if v == 13 {
        "d"
    } else if v == 14 {
        "e"
    } else {
        "f"
    };
    proof {
        reveal_strlit("0");
        reveal_strlit("1");
        reveal_strlit("2");
        reveal_strlit("3");
        reveal_strlit("4");
        reveal_strlit("5");
        reveal_strlit("6");
        reveal_strlit("7");
        reveal_strlit("8");
        reveal_strlit("9");
        reveal_strlit("a");
        reveal_strlit("b");
        reveal_strlit("c");
        reveal_strlit("d");
        reveal_strlit("e");
        reveal_strlit("f");
        assert(r@ =~= seq![hex_digit_char(v)]);
    }
    r
}

/// The canonical artifact file name for `hash`.
pub fn cache_file_name(hash: u64) -> (r: String)
    ensures
        r@ == spec_cache_file_name(hash),
{
    let mut r = String::from_str("help_");
    let mut i: usize = 0;
    while i < 16
        invariant
            i <= 16,
            r@ == "help_"@ + hex16(hash).take(i as int),
        decreases 16 - i,
    {
        let sh: u64 = (4 * (15 - i)) as u64;
        let nib: u64 = (hash >> sh) & 0xf;
        r.append(hex_digit_str(nib));
        proof {
            assert(nib == nibble_of(hash, i as int));
            assert(hex16(hash).take(i as int + 1) =~= hex16(hash).take(i as int).push(
                hex_digit_char(nibble_of(hash, i as int)),
            ));
            assert(r@ =~= "help_"@ + hex16(hash).take(i as int + 1));
        }
        i = i + 1;
    }
    r.append(".png");
    proof {
        assert(hex16(hash).take(16) =~= hex16(hash));
        assert(r@ =~= spec_cache_file_name(hash));
    }
    r
}

/// The canonical artifact path for `hash` inside `data_dir`.
pub fn get_cache_path(data_dir: &str, hash: u64) -> (r: String)
    ensures
        r@ == spec_cache_path(data_dir@, hash),
{
    let mut r = String::from_str(data_dir);
    r.append("/");
    let name = cache_file_name(hash);
    r.append(name.as_str());
    proof {
        assert(r@ =~= spec_cache_path(data_dir@, hash));
    }
    r
}

/// The cheap validity heuristic: an artifact counts as fresh exactly when
/// its file exists and has a size strictly greater than zero. The caller
/// passes the file's size, or nothing when the file is missing.
pub fn is_valid(size: Option<u64>) -> (r: bool)
    ensures
        r == (size matches Some(n) && n > 0),
{
    match size {
        Some(n) => n > 0,
        None => false,
    }
}

/// A name this cache manages: the fixed prefix and suffix of the canonical
/// naming convention. Foreign files never carry both.
pub open spec fn spec_is_managed(s: Seq<char>) -> bool {
    &&& s.len() >= 9
    &&& s.subrange(0, 5) == "help_"@
    &&& s.subrange(s.len() - 4, s.len() as int) == ".png"@
}

/// Whether `name` follows the managed naming convention.
pub fn is_managed_name(name: &str) -> (r: bool)
    ensures
        r == spec_is_managed(name@),
{
    proof {
        reveal_strlit("help_");
        reveal_strlit(".png");
    }
    let n: usize = name.unicode_len();
    if n < 9 {
        return false;
    }
    let head = name.get_char(0) == 'h' && name.get_char(1) == 'e' && name.get_char(2) == 'l'
        && name.get_char(3) == 'p' && name.get_char(4) == '_';
    let tail = name.get_char(n - 4) == '.' && name.get_char(n - 3) == 'p' && name.get_char(n - 2)
        == 'n' && name.get_char(n - 1) == 'g';
    if head && tail {
        proof {
            assert(name@.subrange(0, 5) =~= "help_"@);
            assert(name@.subrange(name@.len() - 4, name@.len() as int) =~= ".png"@);
        }
        true
    } else {
        proof {
            if head {
                assert(name@.subrange(name@.len() - 4, name@.len() as int) != ".png"@) by {
                    if name@.subrange(name@.len() - 4, name@.len() as int) == ".png"@ {
                        assert(name@.subrange(name@.len() - 4, name@.len() as int)[0] == name@[name@.len()
                            - 4]);
                        assert(name@.subrange(name@.len() - 4, name@.len() as int)[1] == name@[name@.len()
                            - 3]);
                        assert(name@.subrange(name@.len() - 4, name@.len() as int)[2] == name@[name@.len()
                            - 2]);
                        assert(name@.subrange(name@.len() - 4, name@.len() as int)[3] == name@[name@.len()
                            - 1]);
                    }
                }
            } else {
                assert(name@.subrange(0, 5) != "help_"@) by {
                    if name@.subrange(0, 5) == "help_"@ {
                        assert(name@.subrange(0, 5)[0] == name@[0]);
                        assert(name@.subrange(0, 5)[1] == name@[1]);
                        assert(name@.subrange(0, 5)[2] == name@[2]);
                        assert(name@.subrange(0, 5)[3] == name@[3]);
                        assert(name@.subrange(0, 5)[4] == name@[4]);
                    }
                }
            }
        }
        false
    }
}


/// The canonical naming is injective: two fingerprints with the same
/// artifact name are the same fingerprint, so distinct configurations never
/// fight over one file.
#[verifier::rlimit(100)]
pub proof fn lemma_cache_file_name_injective(a: u64, b: u64)
    requires
        spec_cache_file_name(a) == spec_cache_file_name(b),
    ensures
        a == b,
{
    reveal_strlit("help_");
    reveal_strlit(".png");
    assert forall|i: int| 0 <= i < 16 implies hex_digit_char(nibble_of(a, i)) == hex_digit_char(
        nibble_of(b, i),
    ) by {
        assert(spec_cache_file_name(a)[5 + i] == hex16(a)[i]);
        assert(spec_cache_file_name(b)[5 + i] == hex16(b)[i]);
    }
    assert(((a >> 60u64) & 0xf) < 16 && ((b >> 60u64) & 0xf) < 16) by (bit_vector);
    assert(nibble_of(a, 0) == ((a >> 60u64) & 0xf));
    assert(nibble_of(b, 0) == ((b >> 60u64) & 0xf));
    assert(nibble_of(a, 0) == nibble_of(b, 0));
    assert(((a >> 56u64) & 0xf) < 16 && ((b >> 56u64) & 0xf) < 16) by (bit_vector);
    assert(nibble_of(a, 1) == ((a >> 56u64) & 0xf));
    assert(nibble_of(b, 1) == ((b >> 56u64) & 0xf));
    assert(nibble_of(a, 1) == nibble_of(b, 1));
    assert(((a >> 52u64) & 0xf) < 16 && ((b >> 52u64) & 0xf) < 16) by (bit_vector);
    assert(nibble_of(a, 2) == ((a >> 52u64) & 0xf));
    assert(nibble_of(b, 2) == ((b >> 52u64) & 0xf));
    assert(nibble_of(a, 2) == nibble_of(b, 2));
    assert(((a >> 48u64) & 0xf) < 16 && ((b >> 48u64) & 0xf) < 16) by (bit_vector);
    assert(nibble_of(a, 3) == ((a >> 48u64) & 0xf));
    assert(nibble_of(b, 3) == ((b >> 48u64) & 0xf));
    assert(nibble_of(a, 3) == nibble_of(b, 3));
    assert(((a >> 44u64) & 0xf) < 16 && ((b >> 44u64) & 0xf) < 16) by (bit_vector);
    assert(nibble_of(a, 4) == ((a >> 44u64) & 0xf));
    assert(nibble_of(b, 4) == ((b >> 44u64) & 0xf));
    assert(nibble_of(a, 4) == nibble_of(b, 4));
    assert(((a >> 40u64) & 0xf) < 16 && ((b >> 40u64) & 0xf) < 16) by (bit_vector);
    assert(nibble_of(a, 5) == ((a >> 40u64) & 0xf));
    assert(nibble_of(b, 5) == ((b >> 40u64) & 0xf));
    assert(nibble_of(a, 5) == nibble_of(b, 5));
    assert(((a >> 36u64) & 0xf) < 16 && ((b >> 36u64) & 0xf) < 16) by (bit_vector);
    assert(nibble_of(a, 6) == ((a >> 36u64) & 0xf));
    assert(nibble_of(b, 6) == ((b >> 36u64) & 0xf));
    assert(nibble_of(a, 6) == nibble_of(b, 6));
    assert(((a >> 32u64) & 0xf) < 16 && ((b >> 32u64) & 0xf) < 16) by (bit_vector);
    assert(nibble_of(a, 7) == ((a >> 32u64) & 0xf));
    assert(nibble_of(b, 7) == ((b >> 32u64) & 0xf));
    assert(nibble_of(a, 7) == nibble_of(b, 7));
    assert(((a >> 28u64) & 0xf) < 16 && ((b >> 28u64) & 0xf) < 16) by (bit_vector);
    assert(nibble_of(a, 8) == ((a >> 28u64) & 0xf));
    assert(nibble_of(b, 8) == ((b >> 28u64) & 0xf));
    assert(nibble_of(a, 8) == nibble_of(b, 8));
    assert(((a >> 24u64) & 0xf) < 16 && ((b >> 24u64) & 0xf) < 16) by (bit_vector);
    assert(nibble_of(a, 9) == ((a >> 24u64) & 0xf));
    assert(nibble_of(b, 9) == ((b >> 24u64) & 0xf));
    assert(nibble_of(a, 9) == nibble_of(b, 9));
    assert(((a >> 20u64) & 0xf) < 16 && ((b >> 20u64) & 0xf) < 16) by (bit_vector);
    assert(nibble_of(a, 10) == ((a >> 20u64) & 0xf));
    assert(nibble_of(b, 10) == ((b >> 20u64) & 0xf));
    assert(nibble_of(a, 10) == nibble_of(b, 10));
    assert(((a >> 16u64) & 0xf) < 16 && ((b >> 16u64) & 0xf) < 16) by (bit_vector);
    assert(nibble_of(a, 11) == ((a >> 16u64) & 0xf));
    assert(nibble_of(b, 11) == ((b >> 16u64) & 0xf));
    assert(nibble_of(a, 11) == nibble_of(b, 11));
    assert(((a >> 12u64) & 0xf) < 16 && ((b >> 12u64) & 0xf) < 16) by (bit_vector);
    assert(nibble_of(a, 12) == ((a >> 12u64) & 0xf));
    assert(nibble_of(b, 12) == ((b >> 12u64) & 0xf));
    assert(nibble_of(a, 12) == nibble_of(b, 12));
    assert(((a >> 8u64) & 0xf) < 16 && ((b >> 8u64) & 0xf) < 16) by (bit_vector);
    assert(nibble_of(a, 13) == ((a >> 8u64) & 0xf));
    assert(nibble_of(b, 13) == ((b >> 8u64) & 0xf));
    assert(nibble_of(a, 13) == nibble_of(b, 13));
    assert(((a >> 4u64) & 0xf) < 16 && ((b >> 4u64) & 0xf) < 16) by (bit_vector);
    assert(nibble_of(a, 14) == ((a >> 4u64) & 0xf));
    assert(nibble_of(b, 14) == ((b >> 4u64) & 0xf));
    assert(nibble_of(a, 14) == nibble_of(b, 14));
    assert(((a >> 0u64) & 0xf) < 16 && ((b >> 0u64) & 0xf) < 16) by (bit_vector);
    assert(nibble_of(a, 15) == ((a >> 0u64) & 0xf));
    assert(nibble_of(b, 15) == ((b >> 0u64) & 0xf));
    assert(nibble_of(a, 15) == nibble_of(b, 15));
    assert(a == b) by (bit_vector)
        requires
            ((a >> 60u64) & 0xf) == ((b >> 60u64) & 0xf) && ((a >> 56u64) & 0xf) == ((b >> 56u64) & 0xf) && ((a >> 52u64) & 0xf) == ((b >> 52u64) & 0xf) && ((a >> 48u64) & 0xf) == ((b >> 48u64) & 0xf) && ((a >> 44u64) & 0xf) == ((b >> 44u64) & 0xf) && ((a >> 40u64) & 0xf) == ((b >> 40u64) & 0xf) && ((a >> 36u64) & 0xf) == ((b >> 36u64) & 0xf) && ((a >> 32u64) & 0xf) == ((b >> 32u64) & 0xf) && ((a >> 28u64) & 0xf) == ((b >> 28u64) & 0xf) && ((a >> 24u64) & 0xf) == ((b >> 24u64) & 0xf) && ((a >> 20u64) & 0xf) == ((b >> 20u64) & 0xf) && ((a >> 16u64) & 0xf) == ((b >> 16u64) & 0xf) && ((a >> 12u64) & 0xf) == ((b >> 12u64) & 0xf) && ((a >> 8u64) & 0xf) == ((b >> 8u64) & 0xf) && ((a >> 4u64) & 0xf) == ((b >> 4u64) & 0xf) && ((a >> 0u64) & 0xf) == ((b >> 0u64) & 0xf),
    ;
}

/// A managed artifact that does not serve the fingerprint to keep.
pub open spec fn spec_should_delete(s: Seq<char>, keep: u64) -> bool {
    spec_is_managed(s) && s != spec_cache_file_name(keep)
}

/// The per-entry cleanup decision: delete exactly the managed artifacts not
/// named for `keep`. Foreign files and the retained artifact stay.
pub fn should_delete(name: &str, keep: u64) -> (r: bool)
    ensures
        r == spec_should_delete(name@, keep),
{
    if !is_managed_name(name) {
        return false;
    }
    let current = cache_file_name(keep);
    let name_s = String::from_str(name);
    !(name_s == current)
}

/// One entry of a cache-directory listing: a file name and its size in
/// bytes.
#[derive(Debug, Clone, PartialEq)]
pub struct DirEntry {
    pub name: String,
    pub size: u64,
}

#[verifier::ext_equal]
pub ghost struct DirEntryView {
    pub name: Seq<char>,
    pub size: u64,
}

impl View for DirEntry {
    type V = DirEntryView;

    open spec fn view(&self) -> DirEntryView {
        DirEntryView { name: self.name@, size: self.size }
    }
}

/// The cache directory as this module sees it: the listing of its files, in
/// listing order. The surrounding process builds it from the real directory
/// and mirrors the decisions taken here back onto disk.
#[derive(Debug, Clone, PartialEq)]
pub struct DirModel {
    pub entries: Vec<DirEntry>,
}

impl View for DirModel {
    type V = Seq<DirEntryView>;

    open spec fn view(&self) -> Seq<DirEntryView> {
        self.entries@.map_values(|e: DirEntry| e@)
    }
}

/// An entry cleanup keeps: foreign, or the retained artifact itself.
pub open spec fn spec_keeps(e: DirEntryView, keep: u64) -> bool {
    !spec_is_managed(e.name) || e.name == spec_cache_file_name(keep)
}

/// The listing after cleanup: exactly the kept entries, in order.
pub open spec fn spec_cleanup(s: Seq<DirEntryView>, keep: u64) -> Seq<DirEntryView>
    decreases s.len(),
{
    if s.len() == 0 {
        Seq::empty()
    } else {
        let rest = spec_cleanup(s.drop_first(), keep);
        if spec_keeps(s[0], keep) {
            seq![s[0]] + rest
        } else {
            rest
        }
    }
}

/// The listing after a full purge: only the foreign entries, in order.
pub open spec fn spec_purge(s: Seq<DirEntryView>) -> Seq<DirEntryView>
    decreases s.len(),
{
    if s.len() == 0 {
        Seq::empty()
    } else {
        let rest = spec_purge(s.drop_first());
        if !spec_is_managed(s[0].name) {
            seq![s[0]] + rest
        } else {
            rest
        }
    }
}

/// The listing with every entry of the given name removed, in order.
pub open spec fn spec_remove_named(s: Seq<DirEntryView>, name: Seq<char>) -> Seq<DirEntryView>
    decreases s.len(),
{
    if s.len() == 0 {
        Seq::empty()
    } else {
        let rest = spec_remove_named(s.drop_first(), name);
        if s[0].name != name {
            seq![s[0]] + rest
        } else {
            rest
        }
    }
}

/// The listing after an artifact for `fp` of `size` bytes was written: any
/// previous file of that name is replaced, everything else is untouched.
pub open spec fn spec_store(s: Seq<DirEntryView>, fp: u64, size: u64) -> Seq<DirEntryView> {
    spec_remove_named(s, spec_cache_file_name(fp)).push(
        DirEntryView { name: spec_cache_file_name(fp), size: size },
    )
}

/// A fresh artifact for `fp` is present: a file with the canonical name and
/// a size greater than zero.
pub open spec fn spec_has_valid(s: Seq<DirEntryView>, fp: u64) -> bool {
    exists|i: int|
        0 <= i < s.len() && (#[trigger] s[i]).name == spec_cache_file_name(fp) && s[i].size > 0
}

proof fn lemma_spec_cleanup_push(s: Seq<DirEntryView>, x: DirEntryView, keep: u64)
    ensures
        spec_cleanup(s.push(x), keep) == if spec_keeps(x, keep) {
            spec_cleanup(s, keep).push(x)
        } else {
            spec_cleanup(s, keep)
        },
    decreases s.len(),
{
    if s.len() == 0 {
        assert(s.push(x).drop_first() =~= s);
        assert(spec_cleanup(s, keep) == Seq::<DirEntryView>::empty());
        assert(spec_cleanup(s.push(x).drop_first(), keep) == Seq::<DirEntryView>::empty());
        if spec_keeps(x, keep) {
            assert(seq![x] + Seq::<DirEntryView>::empty() =~= spec_cleanup(s, keep).push(x));
        }
    } else {
        assert(s.push(x).drop_first() =~= s.drop_first().push(x));
        lemma_spec_cleanup_push(s.drop_first(), x, keep);
        assert(spec_cleanup(s.push(x), keep) == if spec_keeps(s[0], keep) {
            seq![s[0]] + spec_cleanup(s.drop_first().push(x), keep)
        } else {
            spec_cleanup(s.drop_first().push(x), keep)
        });
        if spec_keeps(x, keep) {
            if spec_keeps(s[0], keep) {
                assert(seq![s[0]] + spec_cleanup(s.drop_first(), keep).push(x) =~= (seq![s[0]]
                    + spec_cleanup(s.drop_first(), keep)).push(x));
            }
        }
    }
}

proof fn lemma_spec_purge_push(s: Seq<DirEntryView>, x: DirEntryView)
    ensures
        spec_purge(s.push(x)) == if !spec_is_managed(x.name) {
            spec_purge(s).push(x)
        } else {
            spec_purge(s)
        },
    decreases s.len(),
{
    if s.len() == 0 {
        assert(s.push(x).drop_first() =~= s);
        assert(spec_purge(s) == Seq::<DirEntryView>::empty());
        assert(spec_purge(s.push(x).drop_first()) == Seq::<DirEntryView>::empty());
        if !spec_is_managed(x.name) {
            assert(seq![x] + Seq::<DirEntryView>::empty() =~= spec_purge(s).push(x));
        }
    } else {
        assert(s.push(x).drop_first() =~= s.drop_first().push(x));
        lemma_spec_purge_push(s.drop_first(), x);
        assert(spec_purge(s.push(x)) == if !spec_is_managed(s[0].name) {
            seq![s[0]] + spec_purge(s.drop_first().push(x))
        } else {
            spec_purge(s.drop_first().push(x))
        });
        if !spec_is_managed(x.name) {
            if !spec_is_managed(s[0].name) {
                assert(seq![s[0]] + spec_purge(s.drop_first()).push(x) =~= (seq![s[0]]
                    + spec_purge(s.drop_first())).push(x));
            }
        }
    }
}

proof fn lemma_spec_remove_named_push(s: Seq<DirEntryView>, x: DirEntryView, name: Seq<char>)
    ensures
        spec_remove_named(s.push(x), name) == if x.name != name {
            spec_remove_named(s, name).push(x)
        } else {
            spec_remove_named(s, name)
        },
    decreases s.len(),
{
    if s.len() == 0 {
        assert(s.push(x).drop_first() =~= s);
        assert(spec_remove_named(s, name) == Seq::<DirEntryView>::empty());
        assert(spec_remove_named(s.push(x).drop_first(), name) == Seq::<DirEntryView>::empty());
        if x.name != name {
            assert(seq![x] + Seq::<DirEntryView>::empty() =~= spec_remove_named(s, name).push(x));
        }
    } else {
        assert(s.push(x).drop_first() =~= s.drop_first().push(x));
        lemma_spec_remove_named_push(s.drop_first(), x, name);
        assert(spec_remove_named(s.push(x), name) == if s[0].name != name {
            seq![s[0]] + spec_remove_named(s.drop_first().push(x), name)
        } else {
            spec_remove_named(s.drop_first().push(x), name)
        });
        if x.name != name {
            if s[0].name != name {
                assert(seq![s[0]] + spec_remove_named(s.drop_first(), name).push(x) =~= (seq![s[0]]
                    + spec_remove_named(s.drop_first(), name)).push(x));
            }
        }
    }
}

impl DirModel {
    /// An empty listing.
    pub fn new() -> (r: DirModel)
        ensures
            r@ == Seq::<DirEntryView>::empty(),
    {
        let r = DirModel { entries: Vec::new() };
        proof {
            assert(r@ =~= Seq::<DirEntryView>::empty());
        }
        r
    }

    /// Record one file of the real directory in the model.
    pub fn add_entry(&mut self, name: String, size: u64)
        ensures
            final(self)@ == old(self)@.push(DirEntryView { name: name@, size: size }),
    {
        self.entries.push(DirEntry { name, size });
        proof {
            assert(final(self)@ =~= old(self)@.push(
                DirEntryView { name: final(self).entries@.last().name@, size: size },
            ));
        }
    }

    /// Whether a fresh artifact for `fp` is in the listing.
    pub fn has_valid(&self, fp: u64) -> (r: bool)
        ensures
            r == spec_has_valid(self@, fp),
    {
        let current = cache_file_name(fp);
        let mut i: usize = 0;
        while i < self.entries.len()
            invariant
                i <= self.entries@.len(),
                current@ == spec_cache_file_name(fp),
                forall|k: int|
                    0 <= k < i ==> !((#[trigger] self@[k]).name == spec_cache_file_name(fp)
                        && self@[k].size > 0),
            decreases self.entries@.len() - i,
        {
            if self.entries[i].name == current && self.entries[i].size > 0 {
                proof {
                    assert(self@[i as int].name == spec_cache_file_name(fp) && self@[i as int].size
                        > 0);
                }
                return true;
            }
            i = i + 1;
        }
        false
    }

    /// Delete every managed artifact not named for `keep`. Foreign files and
    /// the retained artifact survive, in their listing order.
    pub fn cleanup(&mut self, keep: u64)
        ensures
            final(self)@ == spec_cleanup(old(self)@, keep),
    {
        let ghost orig = self@;
        let mut kept: Vec<DirEntry> = Vec::new();
        let mut i: usize = 0;
        while i < self.entries.len()
            invariant
                i <= self.entries@.len(),
                orig == self@,
                orig.len() == self.entries@.len(),
                kept@.map_values(|e: DirEntry| e@) == spec_cleanup(orig.take(i as int), keep),
            decreases self.entries@.len() - i,
        {
            let e = &self.entries[i];
            if !should_delete(e.name.as_str(), keep) {
                kept.push(e.clone_entry());
            }
            proof {
                assert(orig.take(i as int + 1) =~= orig.take(i as int).push(orig[i as int]));
                lemma_spec_cleanup_push(orig.take(i as int), orig[i as int], keep);
                assert(kept@.map_values(|e: DirEntry| e@) =~= spec_cleanup(
                    orig.take(i as int + 1),
                    keep,
                ));
            }
            i = i + 1;
        }
        proof {
            assert(orig.take(orig.len() as int) =~= orig);
        }
        self.entries = kept;
    }

    /// Delete every managed artifact, whatever it serves. Foreign files
    /// survive, in their listing order.
    pub fn purge_all(&mut self)
        ensures
            final(self)@ == spec_purge(old(self)@),
    {
        let ghost orig = self@;
        let mut kept: Vec<DirEntry> = Vec::new();
        let mut i: usize = 0;
        while i < self.entries.len()
            invariant
                i <= self.entries@.len(),
                orig == self@,
                orig.len() == self.entries@.len(),
                kept@.map_values(|e: DirEntry| e@) == spec_purge(orig.take(i as int)),
            decreases self.entries@.len() - i,
        {
            let e = &self.entries[i];
            if !is_managed_name(e.name.as_str()) {
                kept.push(e.clone_entry());
            }
            proof {
                assert(orig.take(i as int + 1) =~= orig.take(i as int).push(orig[i as int]));
                lemma_spec_purge_push(orig.take(i as int), orig[i as int]);
                assert(kept@.map_values(|e: DirEntry| e@) =~= spec_purge(orig.take(i as int + 1)));
            }
            i = i + 1;
        }
        proof {
            assert(orig.take(orig.len() as int) =~= orig);
        }
        self.entries = kept;
    }

    /// Record that the artifact for `fp` was written with `size` bytes: any
    /// stale file of the same name is superseded, everything else stays.
    pub fn store_artifact(&mut self, fp: u64, size: u64)
        ensures
            final(self)@ == spec_store(old(self)@, fp, size),
    {
        let ghost orig = self@;
        let current = cache_file_name(fp);
        let mut kept: Vec<DirEntry> = Vec::new();
        let mut i: usize = 0;
        while i < self.entries.len()
            invariant
                i <= self.entries@.len(),
                orig == self@,
                orig.len() == self.entries@.len(),
                current@ == spec_cache_file_name(fp),
                kept@.map_values(|e: DirEntry| e@) == spec_remove_named(
                    orig.take(i as int),
                    spec_cache_file_name(fp),
                ),
            decreases self.entries@.len() - i,
        {
            let e = &self.entries[i];
            if !(e.name == current) {
                kept.push(e.clone_entry());
            }
            proof {
                assert(orig.take(i as int + 1) =~= orig.take(i as int).push(orig[i as int]));
                lemma_spec_remove_named_push(
                    orig.take(i as int),
                    orig[i as int],
                    spec_cache_file_name(fp),
                );
                assert(kept@.map_values(|e: DirEntry| e@) =~= spec_remove_named(
                    orig.take(i as int + 1),
                    spec_cache_file_name(fp),
                ));
            }
            i = i + 1;
        }
        proof {
            assert(orig.take(orig.len() as int) =~= orig);
        }
        kept.push(DirEntry { name: current, size });
        self.entries = kept;
        proof {
            assert(final(self)@ =~= spec_store(orig, fp, size));
        }
    }
}

impl DirEntry {
    /// A copy of this entry.
    pub fn clone_entry(&self) -> (r: DirEntry)
        ensures
            r@ == self@,
    {
        DirEntry { name: self.name.clone(), size: self.size }
    }
}

/// Cleanup safety: cleanup removes exactly the managed artifacts not named
/// for `keep`. Every surviving entry is foreign or the retained artifact,
/// and every entry that was foreign or retained survives.
pub proof fn lemma_cleanup_safety(s: Seq<DirEntryView>, keep: u64)
    ensures
        forall|j: int|
            0 <= j < spec_cleanup(s, keep).len() ==> spec_keeps(
                #[trigger] spec_cleanup(s, keep)[j],
                keep,
            ),
        forall|j: int|
            0 <= j < s.len() && spec_keeps(#[trigger] s[j], keep) ==> spec_cleanup(
                s,
                keep,
            ).contains(s[j]),
    decreases s.len(),
{
    if s.len() == 0 {
    } else {
        lemma_cleanup_safety(s.drop_first(), keep);
        assert forall|j: int|
            0 <= j < s.len() && spec_keeps(#[trigger] s[j], keep) implies spec_cleanup(
            s,
            keep,
        ).contains(s[j]) by {
            if j == 0 {
                assert(spec_cleanup(s, keep)[0] == s[0]);
            } else {
                assert(s.drop_first()[j - 1] == s[j]);
                let k = choose|k: int|
                    0 <= k < spec_cleanup(s.drop_first(), keep).len() && spec_cleanup(
                        s.drop_first(),
                        keep,
                    )[k] == s[j];
                if spec_keeps(s[0], keep) {
                    assert(spec_cleanup(s, keep)[k + 1] == s[j]);
                } else {
                    assert(spec_cleanup(s, keep)[k] == s[j]);
                }
            }
        }
    }
}

/// Purge completeness: after a full purge no managed artifact remains, and
/// every foreign file survives.
pub proof fn lemma_purge_all_safety(s: Seq<DirEntryView>)
    ensures
        forall|j: int|
            0 <= j < spec_purge(s).len() ==> !spec_is_managed((#[trigger] spec_purge(s)[j]).name),
        forall|j: int|
            0 <= j < s.len() && !spec_is_managed((#[trigger] s[j]).name) ==> spec_purge(s).contains(
                s[j],
            ),
    decreases s.len(),
{
    if s.len() == 0 {
    } else {
        lemma_purge_all_safety(s.drop_first());
        assert forall|j: int|
            0 <= j < s.len() && !spec_is_managed((#[trigger] s[j]).name) implies spec_purge(
            s,
        ).contains(s[j]) by {
            if j == 0 {
                assert(spec_purge(s)[0] == s[0]);
            } else {
                assert(s.drop_first()[j - 1] == s[j]);
                let k = choose|k: int|
                    0 <= k < spec_purge(s.drop_first()).len() && spec_purge(s.drop_first())[k]
                        == s[j];
                if !spec_is_managed(s[0].name) {
                    assert(spec_purge(s)[k + 1] == s[j]);
                } else {
                    assert(spec_purge(s)[k] == s[j]);
                }
            }
        }
    }
}

} // verus!
