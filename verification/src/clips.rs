//! Listing an assets folder: which entries are WAV clips, images or animation clips,
//! their names, and the sorted order in which they are listed and cooked.
use vstd::prelude::*;
use vstd::relations::{sorted_by, total_ordering};
use crate::paths::{path_extension, path_file_stem, path_file_name, extension_of, file_stem_of, file_name_of};
use crate::strings::{chars_of, ascii_lower, ascii_lower_chars, chars_eq, string_from_chars, seq_ends_with, ends_with_chars, push_str};

verus! {

/// Lexicographic order on characters by code point (the order of `String`'s `Ord`,
/// since UTF-8 byte order follows code point order); a prefix comes first.
pub open spec fn char_seq_le(a: Seq<char>, b: Seq<char>) -> bool
    decreases a.len(),
{
    if a.len() == 0 {
        true
    } else if b.len() == 0 {
        false
    } else if a[0] != b[0] {
        a[0] < b[0]
    } else {
        char_seq_le(a.drop_first(), b.drop_first())
    }
}

/// [`char_seq_le`] as a relation.
pub open spec fn name_order() -> spec_fn(Seq<char>, Seq<char>) -> bool {
    |a: Seq<char>, b: Seq<char>| char_seq_le(a, b)
}

proof fn lemma_le_reflexive(a: Seq<char>)
    ensures
        char_seq_le(a, a),
    decreases a.len(),
{
    if a.len() > 0 {
        lemma_le_reflexive(a.drop_first());
    }
}

proof fn lemma_le_antisymmetric(a: Seq<char>, b: Seq<char>)
    requires
        char_seq_le(a, b),
        char_seq_le(b, a),
    ensures
        a == b,
    decreases a.len(),
{
    if a.len() > 0 && b.len() > 0 {
        if a[0] == b[0] {
            lemma_le_antisymmetric(a.drop_first(), b.drop_first());
            assert(a =~= seq![a[0]] + a.drop_first());
            assert(b =~= seq![b[0]] + b.drop_first());
        }
    } else {
        assert(a =~= b);
    }
}

proof fn lemma_le_transitive(a: Seq<char>, b: Seq<char>, c: Seq<char>)
    requires
        char_seq_le(a, b),
        char_seq_le(b, c),
    ensures
        char_seq_le(a, c),
    decreases a.len(),
{
    if a.len() > 0 && b.len() > 0 && c.len() > 0 {
        if a[0] == b[0] && b[0] == c[0] {
            lemma_le_transitive(a.drop_first(), b.drop_first(), c.drop_first());
        }
    }
}

proof fn lemma_le_total(a: Seq<char>, b: Seq<char>)
    ensures
        char_seq_le(a, b) || char_seq_le(b, a),
    decreases a.len(),
{
    if a.len() > 0 && b.len() > 0 && a[0] == b[0] {
        lemma_le_total(a.drop_first(), b.drop_first());
    }
}

/// The name order is a total order.
pub proof fn lemma_name_order_total()
    ensures
        total_ordering(name_order()),
{
    let r = name_order();
    assert forall|x: Seq<char>| #[trigger] r(x, x) by {
        lemma_le_reflexive(x);
    }
    assert forall|x: Seq<char>, y: Seq<char>| #[trigger] r(x, y) && #[trigger] r(y, x) implies x == y by {
        lemma_le_antisymmetric(x, y);
    }
    assert forall|x: Seq<char>, y: Seq<char>, z: Seq<char>| #[trigger] r(x, y) && #[trigger] r(y, z) implies r(
        x,
        z,
    ) by {
        lemma_le_transitive(x, y, z);
    }
    assert forall|x: Seq<char>, y: Seq<char>| #[trigger] r(x, y) || #[trigger] r(y, x) by {
        lemma_le_total(x, y);
    }
}

/// Does the path name a WAV file (extension `wav` in any ASCII case)?
pub open spec fn is_wav_path(p: Seq<char>) -> bool {
    match path_extension(p) {
        Some(e) => ascii_lower(e) == "wav"@,
        None => false,
    }
}

/// Stems of the WAV paths, in input order (paths without a stem are skipped).
pub open spec fn wav_stems(paths: Seq<Seq<char>>) -> Seq<Seq<char>>
    decreases paths.len(),
{
    if paths.len() == 0 {
        Seq::empty()
    } else {
        let rest = wav_stems(paths.drop_last());
        let p = paths.last();
        if is_wav_path(p) {
            match path_file_stem(p) {
                Some(s) => rest.push(s),
                None => rest,
            }
        } else {
            rest
        }
    }
}

/// Characters of each string.
pub open spec fn views(v: Seq<String>) -> Seq<Seq<char>> {
    v.map_values(|s: String| s@)
}

fn chars_le(a: &Vec<char>, b: &Vec<char>) -> (r: bool)
    ensures
        r == char_seq_le(a@, b@),
{
    let mut i: usize = 0;
    assert(a@.skip(0) =~= a@);
    assert(b@.skip(0) =~= b@);
    while i < a.len() && i < b.len() && a[i] == b[i]
        invariant
            i <= a@.len(),
            i <= b@.len(),
            char_seq_le(a@.skip(i as int), b@.skip(i as int)) == char_seq_le(a@, b@),
        decreases a@.len() - i,
    {
        assert(a@.skip(i as int).drop_first() =~= a@.skip(i + 1));
        assert(b@.skip(i as int).drop_first() =~= b@.skip(i + 1));
        i = i + 1;
    }
    if i == a.len() {
        assert(a@.skip(i as int).len() == 0);
        true
    } else if i == b.len() {
        false
    } else {
        assert(a@.skip(i as int)[0] == a@[i as int]);
        assert(b@.skip(i as int)[0] == b@[i as int]);
        a[i] < b[i]
    }
}

fn is_wav(p: &str) -> (r: bool)
    ensures
        r == is_wav_path(p@),
{
    match extension_of(p) {
        Some(e) => chars_eq(&ascii_lower_chars(&chars_of(e.as_str())), &chars_of("wav")),
        None => false,
    }
}

/// Insert `x` into sorted `out` after every name not above it.
fn insert_sorted(out: &mut Vec<String>, x: String)
    requires
        sorted_by(views(old(out)@), name_order()),
    ensures
        sorted_by(views(final(out)@), name_order()),
        views(final(out)@).to_multiset() == views(old(out)@).to_multiset().insert(x@),
{
    proof {
        lemma_name_order_total();
    }
    let xc = chars_of(x.as_str());
    let mut p: usize = 0;
    while p < out.len() && chars_le(&chars_of(out[p].as_str()), &xc)
        invariant
            p <= out@.len(),
            xc@ == x@,
            forall|j: int| 0 <= j < p ==> char_seq_le(#[trigger] views(out@)[j], x@),
        decreases out@.len() - p,
    {
        p = p + 1;
    }
    let ghost before = out@;
    let ghost vb = views(before);
    proof {
        if p < before.len() {
            assert(!char_seq_le(vb[p as int], x@));
            lemma_le_total(vb[p as int], x@);
        }
        assert forall|j: int| p <= j < vb.len() implies char_seq_le(x@, #[trigger] vb[j]) by {
            assert(name_order()(vb[p as int], vb[j]) || p == j);
            if p < j {
                lemma_le_transitive(x@, vb[p as int], vb[j]);
            }
        }
    }
    out.insert(p, x);
    proof {
        let va = views(out@);
        assert(va =~= vb.insert(p as int, x@));
        vstd::seq_lib::to_multiset_insert(vb, p as int, x@);
        assert forall|i: int, j: int| 0 <= i < j < va.len() implies #[trigger] name_order()(va[i], va[j]) by {
            if j < p {
                assert(name_order()(vb[i], vb[j]));
            } else if j == p {
                assert(char_seq_le(vb[i], x@));
            } else if i < p {
                assert(char_seq_le(vb[i], x@));
                assert(char_seq_le(x@, vb[j - 1]));
                lemma_le_transitive(vb[i], x@, vb[j - 1]);
            } else if i == p {
                assert(char_seq_le(x@, vb[j - 1]));
            } else {
                assert(name_order()(vb[i - 1], vb[j - 1]));
            }
        }
    }
}

/// Paths with extension exactly `png`, in input order.
pub open spec fn png_paths(paths: Seq<Seq<char>>) -> Seq<Seq<char>>
    decreases paths.len(),
{
    if paths.len() == 0 {
        Seq::empty()
    } else {
        let rest = png_paths(paths.drop_last());
        if path_extension(paths.last()) == Some("png"@) {
            rest.push(paths.last())
        } else {
            rest
        }
    }
}

fn copy_string(s: &String) -> (r: String)
    ensures
        r@ == s@,
{
    string_from_chars(&chars_of(s.as_str()))
}

/// The PNG files among a folder's entries, sorted by path: the order in which a folder
/// is cooked.
pub fn png_cook_order(paths: &[String]) -> (out: Vec<String>)
    ensures
        views(out@) == png_paths(views(paths@)).sort_by(name_order()),
{
    let mut out: Vec<String> = Vec::new();
    let mut i: usize = 0;
    assert(views(out@) =~= Seq::<Seq<char>>::empty());
    assert(views(paths@).subrange(0, 0) =~= Seq::<Seq<char>>::empty());
    while i < paths.len()
        invariant
            i <= paths@.len(),
            sorted_by(views(out@), name_order()),
            views(out@).to_multiset() == png_paths(views(paths@).subrange(0, i as int)).to_multiset(),
        decreases paths@.len() - i,
    {
        let ghost pre = views(paths@).subrange(0, i as int);
        let ghost next = views(paths@).subrange(0, i + 1);
        assert(next.drop_last() =~= pre);
        assert(next.last() == paths@[i as int]@);
        let is_png = match extension_of(paths[i].as_str()) {
            Some(e) => chars_eq(&chars_of(e.as_str()), &chars_of("png")),
            None => false,
        };
        if is_png {
            proof {
                vstd::seq_lib::to_multiset_build(png_paths(pre), paths@[i as int]@);
            }
            insert_sorted(&mut out, copy_string(&paths[i]));
        }
        i = i + 1;
    }
    proof {
        assert(views(paths@).subrange(0, paths@.len() as int) =~= views(paths@));
        let ps = png_paths(views(paths@));
        lemma_name_order_total();
        ps.lemma_sort_by_ensures(name_order());
        vstd::seq_lib::lemma_sorted_unique(views(out@), ps.sort_by(name_order()), name_order());
    }
    out
}

/// Pack name of a cooked image: its file stem, or `tex` when the path has none.
pub fn texture_name_for(path: &str) -> (name: String)
    ensures
        name@ == match path_file_stem(path@) {
            Some(s) => s,
            None => "tex"@,
        },
{
    match file_stem_of(path) {
        Some(s) => s,
        None => string_from_chars(&chars_of("tex")),
    }
}

/// Stems of the WAV files among `paths` (extension `wav`, any ASCII case), sorted by
/// name; what `list_wav_clips` reports for a folder's entries.
pub fn wav_clip_names(paths: &[String]) -> (names: Vec<String>)
    ensures
        views(names@) == wav_stems(views(paths@)).sort_by(name_order()),
{
    let mut out: Vec<String> = Vec::new();
    let mut i: usize = 0;
    assert(views(out@) =~= Seq::<Seq<char>>::empty());
    assert(views(paths@).subrange(0, 0) =~= Seq::<Seq<char>>::empty());
    while i < paths.len()
        invariant
            i <= paths@.len(),
            sorted_by(views(out@), name_order()),
            views(out@).to_multiset() == wav_stems(views(paths@).subrange(0, i as int)).to_multiset(),
        decreases paths@.len() - i,
    {
        let ghost pre = views(paths@).subrange(0, i as int);
        let ghost next = views(paths@).subrange(0, i + 1);
        assert(next.drop_last() =~= pre);
        assert(next.last() == paths@[i as int]@);
        if is_wav(paths[i].as_str()) {
            match file_stem_of(paths[i].as_str()) {
                Some(s) => {
                    proof {
                        vstd::seq_lib::to_multiset_build(wav_stems(pre), s@);
                    }
                    insert_sorted(&mut out, s);
                },
                None => {},
            }
        }
        i = i + 1;
    }
    proof {
        assert(views(paths@).subrange(0, paths@.len() as int) =~= views(paths@));
        let stems = wav_stems(views(paths@));
        lemma_name_order_total();
        stems.lemma_sort_by_ensures(name_order());
        vstd::seq_lib::lemma_sorted_unique(views(out@), stems.sort_by(name_order()), name_order());
    }
    out
}

/// Clip names of the `*.anim.json` files among `paths` (file name minus that suffix),
/// in input order.
pub open spec fn anim_stems(paths: Seq<Seq<char>>) -> Seq<Seq<char>>
    decreases paths.len(),
{
    if paths.len() == 0 {
        Seq::empty()
    } else {
        let rest = anim_stems(paths.drop_last());
        match path_file_name(paths.last()) {
            Some(f) => if seq_ends_with(f, ".anim.json"@) {
                rest.push(f.subrange(0, f.len() - ".anim.json"@.len()))
            } else {
                rest
            },
            None => rest,
        }
    }
}

/// Names of the animation clips among a folder's entries, sorted.
pub fn anim_clip_names(paths: &[String]) -> (names: Vec<String>)
    ensures
        views(names@) == anim_stems(views(paths@)).sort_by(name_order()),
{
    let suffix = chars_of(".anim.json");
    proof {
        reveal_strlit(".anim.json");
    }
    let mut out: Vec<String> = Vec::new();
    let mut i: usize = 0;
    assert(views(out@) =~= Seq::<Seq<char>>::empty());
    assert(views(paths@).subrange(0, 0) =~= Seq::<Seq<char>>::empty());
    while i < paths.len()
        invariant
            i <= paths@.len(),
            suffix@ == ".anim.json"@,
            suffix@.len() == 10,
            sorted_by(views(out@), name_order()),
            views(out@).to_multiset() == anim_stems(views(paths@).subrange(0, i as int)).to_multiset(),
        decreases paths@.len() - i,
    {
        let ghost pre = views(paths@).subrange(0, i as int);
        let ghost next = views(paths@).subrange(0, i + 1);
        assert(next.drop_last() =~= pre);
        assert(next.last() == paths@[i as int]@);
        match file_name_of(paths[i].as_str()) {
            Some(f) => {
                let fc = chars_of(f.as_str());
                if ends_with_chars(&fc, &suffix) {
                    let n = fc.len() - 10;
                    let mut stem: Vec<char> = Vec::new();
                    let mut k: usize = 0;
                    while k < n
                        invariant
                            n <= fc@.len(),
                            k <= n,
                            stem@ == fc@.subrange(0, k as int),
                        decreases n - k,
                    {
                        stem.push(fc[k]);
                        k = k + 1;
                        assert(stem@ =~= fc@.subrange(0, k as int));
                    }
                    proof {
                        vstd::seq_lib::to_multiset_build(anim_stems(pre), stem@);
                    }
                    insert_sorted(&mut out, string_from_chars(&stem));
                }
            },
            None => {},
        }
        i = i + 1;
    }
    proof {
        assert(views(paths@).subrange(0, paths@.len() as int) =~= views(paths@));
        let st = anim_stems(views(paths@));
        lemma_name_order_total();
        st.lemma_sort_by_ensures(name_order());
        vstd::seq_lib::lemma_sorted_unique(views(out@), st.sort_by(name_order()), name_order());
    }
    out
}

/// Extension of a path for import, ASCII lower-cased; empty when there is none.
pub open spec fn import_ext(path: Seq<char>) -> Seq<char> {
    match path_extension(path) {
        Some(e) => ascii_lower(e),
        None => Seq::empty(),
    }
}

/// File name an imported asset gets in the assets folder: the given name, else the
/// file's stem (`tex` without one), with `.wav` for WAV files and `.png` for PNG files or
/// files without an extension; any other extension is refused.
pub open spec fn spec_import_file_name(path: Seq<char>, name: Option<Seq<char>>) -> Result<Seq<char>, Seq<char>> {
    let stem = match name {
        Some(n) => n,
        None => match path_file_stem(path) {
            Some(s) => s,
            None => "tex"@,
        },
    };
    let e = import_ext(path);
    if e == "wav"@ {
        Ok(stem + ".wav"@)
    } else if e == "png"@ || e.len() == 0 {
        Ok(stem + ".png"@)
    } else {
        Err("asset import: expected .png or .wav, got ."@ + e)
    }
}

/// Name under which `path` is imported into the assets folder.
pub fn import_file_name(path: &str, name: Option<&str>) -> (r: Result<String, String>)
    ensures
        match r {
            Ok(f) => spec_import_file_name(path@, match name {
                Some(n) => Some(n@),
                None => None,
            }) == Ok::<Seq<char>, Seq<char>>(f@),
            Err(m) => spec_import_file_name(path@, match name {
                Some(n) => Some(n@),
                None => None,
            }) == Err::<Seq<char>, Seq<char>>(m@),
        },
{
    let mut stem: Vec<char> = match name {
        Some(n) => chars_of(n),
        None => chars_of(texture_name_for(path).as_str()),
    };
    let e: Vec<char> = match extension_of(path) {
        Some(x) => ascii_lower_chars(&chars_of(x.as_str())),
        None => Vec::new(),
    };
    assert(e@ == import_ext(path@));
    if chars_eq(&e, &chars_of("wav")) {
        push_str(&mut stem, ".wav");
        Ok(string_from_chars(&stem))
    } else if chars_eq(&e, &chars_of("png")) || e.len() == 0 {
        push_str(&mut stem, ".png");
        Ok(string_from_chars(&stem))
    } else {
        let mut m: Vec<char> = Vec::new();
        push_str(&mut m, "asset import: expected .png or .wav, got .");
        let ghost pre = m@;
        let mut k: usize = 0;
        while k < e.len()
            invariant
                k <= e@.len(),
                m@ == pre + e@.subrange(0, k as int),
            decreases e@.len() - k,
        {
            m.push(e[k]);
            k = k + 1;
            assert(m@ =~= pre + e@.subrange(0, k as int));
        }
        assert(e@.subrange(0, e@.len() as int) =~= e@);
        Err(string_from_chars(&m))
    }
}

} // verus!
