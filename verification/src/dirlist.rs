//! The picture list of a directory: which entries count as pictures, in what
//! order they are listed, and the message that goes with the list.
use vstd::prelude::*;
use vstd::string::*;
use vstd::seq_lib::group_to_multiset_ensures;
use vstd::multiset::Multiset;
use crate::text::{decimal, ends_with, has_suffix, lemma_text_less_irreflexive,
    lemma_text_less_transitive, text_less, text_lt, format_u64};

verus! {

broadcast use group_to_multiset_ensures;

/// What was read of one directory entry: its name, where the name is valid
/// Unicode, and whether its metadata could be read and shows a regular file.
pub struct DirEntryInfo {
    pub name: Option<String>,
    pub is_file: bool,
}

/// A file name with one of the picture extensions `.jpg`, `.JPG`, `.jpeg`,
/// `.JPEG`, `.png`, `.PNG`.
pub open spec fn is_image_name(name: Seq<char>) -> bool {
    ||| has_suffix(name, ".jpg"@)
    ||| has_suffix(name, ".JPG"@)
    ||| has_suffix(name, ".jpeg"@)
    ||| has_suffix(name, ".JPEG"@)
    ||| has_suffix(name, ".png"@)
    ||| has_suffix(name, ".PNG"@)
}

/// The entry is a regular file with a readable name that names a picture.
pub open spec fn is_listed(e: DirEntryInfo) -> bool {
    &&& e.is_file
    &&& e.name is Some
    &&& is_image_name(e.name->0@)
}

/// The names of the listed entries, in directory order.
pub open spec fn listed_names(entries: Seq<DirEntryInfo>) -> Seq<Seq<char>>
    decreases entries.len(),
{
    if entries.len() == 0 {
        Seq::empty()
    } else {
        let rest = listed_names(entries.drop_last());
        if is_listed(entries.last()) {
            rest.push(entries.last().name->0@)
        } else {
            rest
        }
    }
}

/// The character views of a sequence of strings.
pub open spec fn texts(v: Seq<String>) -> Seq<Seq<char>> {
    v.map_values(|s: String| s@)
}

/// No element comes after a later one: ascending, equal elements allowed.
pub open spec fn sorted_texts(s: Seq<Seq<char>>) -> bool {
    forall|i: int, j: int| 0 <= i < j < s.len() ==> !text_less(#[trigger] s[j], #[trigger] s[i])
}

/// The message for a directory without pictures.
pub open spec fn no_pictures_message() -> Seq<char> {
    "********* Directory 1: directory has no image files (jpg or png) **********"@
}

/// The message for a directory with `n` pictures.
pub open spec fn pictures_message(n: nat) -> Seq<char> {
    decimal(n) + " files in directory "@
}

/// Whether `name` has one of the picture extensions.
pub fn image_name(name: &str) -> (r: bool)
    ensures
        r == is_image_name(name@),
{
    ends_with(name, ".jpg") || ends_with(name, ".JPG") || ends_with(name, ".jpeg")
        || ends_with(name, ".JPEG") || ends_with(name, ".png") || ends_with(name, ".PNG")
}

proof fn lemma_insert_multiset(s: Seq<Seq<char>>, p: int, v: Seq<char>)
    requires
        0 <= p <= s.len(),
    ensures
        s.insert(p, v).to_multiset() =~= s.to_multiset().insert(v),
{
    broadcast use vstd::multiset::group_multiset_axioms;
    let t = s.insert(p, v);
    assert(t.remove(p) =~= s);
    assert(t.remove(p).to_multiset() == t.to_multiset().remove(t[p]));
    assert(t.contains(v)) by {
        assert(t[p] == v);
    }
    assert(t.to_multiset().count(v) > 0);
}

proof fn lemma_insert_sorted(s: Seq<Seq<char>>, p: int, v: Seq<char>)
    requires
        sorted_texts(s),
        0 <= p <= s.len(),
        forall|k: int| 0 <= k < p ==> !text_less(v, #[trigger] s[k]),
        p < s.len() ==> text_less(v, s[p]),
    ensures
        sorted_texts(s.insert(p, v)),
{
    let t = s.insert(p, v);
    assert forall|i: int, j: int| 0 <= i < j < t.len() implies !text_less(#[trigger] t[j], #[trigger] t[i]) by {
        if j < p {
            assert(t[i] == s[i] && t[j] == s[j]);
        } else if j == p {
            assert(t[i] == s[i] && t[j] == v);
        } else if i < p {
            assert(t[i] == s[i] && t[j] == s[j - 1]);
        } else if i == p {
            assert(t[j] == s[j - 1] && t[i] == v);
            if text_less(s[j - 1], v) {
                lemma_text_less_transitive(s[j - 1], v, s[p]);
                if j - 1 == p {
                    lemma_text_less_irreflexive(s[p]);
                }
            }
        } else {
            assert(t[i] == s[i - 1] && t[j] == s[j - 1]);
        }
    }
}

/// A listing is fixed by the names it holds: two ascending sequences that
/// hold the same names, each as often, are the same sequence.
pub proof fn lemma_sorted_unique(a: Seq<Seq<char>>, b: Seq<Seq<char>>)
    requires
        sorted_texts(a),
        sorted_texts(b),
        a.to_multiset() == b.to_multiset(),
    ensures
        a == b,
    decreases a.len(),
{
    broadcast use vstd::multiset::group_multiset_axioms;
    assert(a.len() == a.to_multiset().len());
    assert(b.len() == b.to_multiset().len());
    if a.len() == 0 {
        assert(a =~= b);
    } else {
        assert(a.to_multiset().count(a[0]) > 0) by {
            assert(a.contains(a[0]));
        }
        assert(b.contains(a[0]));
        assert(b.to_multiset().count(b[0]) > 0) by {
            assert(b.contains(b[0]));
        }
        assert(a.contains(b[0]));
        let j = choose|j: int| 0 <= j < b.len() && b[j] == a[0];
        let k = choose|k: int| 0 <= k < a.len() && a[k] == b[0];
        if j > 0 {
            assert(!text_less(b[j], b[0]));
        }
        if k > 0 {
            assert(!text_less(a[k], a[0]));
        }
        if a[0] != b[0] {
            crate::text::lemma_text_less_total(a[0], b[0]);
            if j == 0 {
                assert(b[0] == a[0]);
            }
            if k == 0 {
                assert(a[0] == b[0]);
            }
        }
        assert(a.remove(0).to_multiset() == a.to_multiset().remove(a[0]));
        assert(b.remove(0).to_multiset() == b.to_multiset().remove(b[0]));
        assert(a.remove(0) =~= a.drop_first());
        assert(b.remove(0) =~= b.drop_first());
        assert(sorted_texts(a.drop_first())) by {
            assert forall|i: int, l: int| 0 <= i < l < a.drop_first().len() implies !text_less(
                #[trigger] a.drop_first()[l],
                #[trigger] a.drop_first()[i],
            ) by {
                assert(a.drop_first()[l] == a[l + 1] && a.drop_first()[i] == a[i + 1]);
            }
        }
        assert(sorted_texts(b.drop_first())) by {
            assert forall|i: int, l: int| 0 <= i < l < b.drop_first().len() implies !text_less(
                #[trigger] b.drop_first()[l],
                #[trigger] b.drop_first()[i],
            ) by {
                assert(b.drop_first()[l] == b[l + 1] && b.drop_first()[i] == b[i + 1]);
            }
        }
        lemma_sorted_unique(a.drop_first(), b.drop_first());
        assert(a =~= b) by {
            assert forall|i: int| 0 <= i < a.len() implies a[i] == b[i] by {
                if i > 0 {
                    assert(a[i] == a.drop_first()[i - 1]);
                    assert(b[i] == b.drop_first()[i - 1]);
                }
            }
        }
    }
}

/// The name an entry adds to the listing: its own where it is listed, none
/// otherwise.
pub open spec fn listed_one(e: DirEntryInfo) -> Multiset<Seq<char>> {
    if is_listed(e) {
        Multiset::singleton(e.name->0@)
    } else {
        Multiset::empty()
    }
}

proof fn lemma_listed_push(e: Seq<DirEntryInfo>)
    requires
        e.len() > 0,
    ensures
        listed_names(e).to_multiset() == listed_names(e.drop_last()).to_multiset().add(listed_one(e.last())),
{
    broadcast use vstd::multiset::group_multiset_axioms;
    let rest = listed_names(e.drop_last());
    if is_listed(e.last()) {
        assert(rest.push(e.last().name->0@).to_multiset() =~= rest.to_multiset().insert(e.last().name->0@));
        assert(rest.to_multiset().insert(e.last().name->0@) =~= rest.to_multiset().add(
            Multiset::singleton(e.last().name->0@),
        ));
    } else {
        assert(rest.to_multiset().add(Multiset::empty()) =~= rest.to_multiset());
    }
}

proof fn lemma_listed_remove(e: Seq<DirEntryInfo>, i: int)
    requires
        0 <= i < e.len(),
    ensures
        listed_names(e).to_multiset() == listed_names(e.remove(i)).to_multiset().add(listed_one(e[i])),
    decreases e.len(),
{
    broadcast use vstd::multiset::group_multiset_axioms;
    lemma_listed_push(e);
    if i == e.len() - 1 {
        assert(e.remove(i) =~= e.drop_last());
    } else {
        lemma_listed_remove(e.drop_last(), i);
        let r = e.remove(i);
        assert(r.drop_last() =~= e.drop_last().remove(i));
        assert(r.last() == e.last());
        lemma_listed_push(r);
        let a = listed_names(e.drop_last().remove(i)).to_multiset();
        assert(a.add(listed_one(e[i])).add(listed_one(e.last())) =~= a.add(listed_one(e.last())).add(
            listed_one(e[i]),
        ));
    }
}

proof fn lemma_listed_multiset(e1: Seq<DirEntryInfo>, e2: Seq<DirEntryInfo>)
    requires
        e1.to_multiset() == e2.to_multiset(),
    ensures
        listed_names(e1).to_multiset() == listed_names(e2).to_multiset(),
    decreases e1.len(),
{
    broadcast use vstd::multiset::group_multiset_axioms;
    assert(e1.len() == e1.to_multiset().len());
    assert(e2.len() == e2.to_multiset().len());
    if e1.len() == 0 {
        assert(e1 =~= e2);
    } else {
        let last = e1.len() - 1;
        let x = e1[last];
        assert(e1.contains(x));
        assert(e2.to_multiset().count(x) > 0);
        assert(e2.contains(x));
        let i = choose|i: int| 0 <= i < e2.len() && e2[i] == x;
        assert(e1.remove(last) =~= e1.drop_last());
        assert(e1.remove(last).to_multiset() == e1.to_multiset().remove(x));
        assert(e2.remove(i).to_multiset() == e2.to_multiset().remove(x));
        lemma_listed_multiset(e1.drop_last(), e2.remove(i));
        lemma_listed_remove(e1, last);
        lemma_listed_remove(e2, i);
    }
}

/// The listing does not depend on the order in which the directory yields
/// its entries: for two orders of the same entries, ascending lists that
/// hold the listed names, each as often, are the same list, and the number
/// of pictures (which decides the code and message) is the same.
pub proof fn lemma_listing_ignores_order(
    e1: Seq<DirEntryInfo>,
    e2: Seq<DirEntryInfo>,
    l1: Seq<Seq<char>>,
    l2: Seq<Seq<char>>,
)
    requires
        e1.to_multiset() == e2.to_multiset(),
        sorted_texts(l1),
        sorted_texts(l2),
        l1.to_multiset() == listed_names(e1).to_multiset(),
        l2.to_multiset() == listed_names(e2).to_multiset(),
    ensures
        l1 == l2,
        listed_names(e1).len() == listed_names(e2).len(),
{
    lemma_listed_multiset(e1, e2);
    lemma_sorted_unique(l1, l2);
    assert(listed_names(e1).len() == listed_names(e1).to_multiset().len());
    assert(listed_names(e2).len() == listed_names(e2).to_multiset().len());
}

/// What [`get_dirlistr`] gives for `entries`, in plain values: the code, the
/// message and the listed names.
pub open spec fn listing_of(entries: Seq<DirEntryInfo>, r: (u32, Seq<char>, Seq<Seq<char>>)) -> bool {
    &&& sorted_texts(r.2)
    &&& r.2.to_multiset() == listed_names(entries).to_multiset()
    &&& r.0 == (if listed_names(entries).len() > 0 { 0u32 } else { 1u32 })
    &&& r.1 == (if listed_names(entries).len() > 0 {
        pictures_message(listed_names(entries).len())
    } else {
        no_pictures_message()
    })
}

/// The whole answer of [`get_dirlistr`] (code, message and list) does not
/// depend on the order in which the directory yields its entries.
pub proof fn lemma_dirlist_ignores_order(
    e1: Seq<DirEntryInfo>,
    e2: Seq<DirEntryInfo>,
    r1: (u32, Seq<char>, Seq<Seq<char>>),
    r2: (u32, Seq<char>, Seq<Seq<char>>),
)
    requires
        e1.to_multiset() == e2.to_multiset(),
        listing_of(e1, r1),
        listing_of(e2, r2),
    ensures
        r1 == r2,
{
    lemma_listing_ignores_order(e1, e2, r1.2, r2.2);
}

/// The number of entries that the listing keeps.
pub fn listed_count(entries: &Vec<DirEntryInfo>) -> (r: usize)
    ensures
        r == listed_names(entries@).len(),
{
    let n = entries.len();
    let mut count: usize = 0;
    let mut i: usize = 0;
    while i < n
        invariant
            n == entries.len(),
            i <= n,
            count == listed_names(entries@.take(i as int)).len(),
            count <= i,
        decreases n - i,
    {
        assert(entries@.take(i + 1).drop_last() =~= entries@.take(i as int));
        let e = &entries[i];
        if e.is_file {
            match &e.name {
                Some(name) => {
                    if image_name(name.as_str()) {
                        count = count + 1;
                    }
                },
                None => {},
            }
        }
        i = i + 1;
    }
    assert(entries@.take(n as int) =~= entries@);
    count
}

/// Sorts names ascending in the order of `String`'s `<`: the result holds
/// the same names, each as often, and no name comes after a later one.
pub fn sort_names(names: &Vec<String>) -> (r: Vec<String>)
    ensures
        sorted_texts(texts(r@)),
        texts(r@).to_multiset() == texts(names@).to_multiset(),
{
    let mut result: Vec<String> = Vec::new();
    let n = names.len();
    let mut i: usize = 0;
    assert(texts(result@) =~= texts(names@.take(0)));
    while i < n
        invariant
            n == names.len(),
            i <= n,
            sorted_texts(texts(result@)),
            texts(result@).to_multiset() == texts(names@.take(i as int)).to_multiset(),
        decreases n - i,
    {
        let x = names[i].clone();
        let m = result.len();
        let mut p: usize = 0;
        while p < m && !text_lt(x.as_str(), result[p].as_str())
            invariant
                m == result.len(),
                p <= m,
                forall|k: int| 0 <= k < p ==> !text_less(x@, #[trigger] texts(result@)[k]),
            decreases m - p,
        {
            p = p + 1;
        }
        let ghost before = texts(result@);
        proof {
            lemma_insert_sorted(before, p as int, x@);
            lemma_insert_multiset(before, p as int, x@);
            assert(texts(names@.take(i + 1)) =~= texts(names@.take(i as int)).push(x@));
        }
        result.insert(p, x);
        assert(texts(result@) =~= before.insert(p as int, x@));
        i = i + 1;
    }
    assert(names@.take(n as int) =~= names@);
    result
}

/// The picture list of a directory, from what was read of its entries: the
/// error code (0 with pictures, 1 without), the message, and the names of
/// the pictures in ascending order.
pub fn get_dirlistr(entries: &Vec<DirEntryInfo>) -> (r: (u32, String, Vec<String>))
    requires
        listed_names(entries@).len() <= i32::MAX,
    ensures
        listing_of(entries@, (r.0, r.1@, texts(r.2@))),
{
    let mut listitems: Vec<String> = Vec::new();
    let n = entries.len();
    let mut i: usize = 0;
    while i < n
        invariant
            n == entries.len(),
            i <= n,
            texts(listitems@) =~= listed_names(entries@.take(i as int)),
        decreases n - i,
    {
        let e = &entries[i];
        proof {
            assert(entries@.take(i + 1).drop_last() =~= entries@.take(i as int));
        }
        if e.is_file {
            match &e.name {
                Some(name) => {
                    if image_name(name.as_str()) {
                        listitems.push(name.clone());
                    }
                },
                None => {},
            }
        }
        i = i + 1;
    }
    assert(entries@.take(n as int) =~= entries@);
    let count = listitems.len();
    let sorted = sort_names(&listitems);
    if count > 0 {
        let mut msg = format_u64(count as u64);
        msg.append(" files in directory ");
        (0, msg, sorted)
    } else {
        let msg = String::from_str(
            "********* Directory 1: directory has no image files (jpg or png) **********",
        );
        (1, msg, sorted)
    }
}

} // verus!

verus! {

/// Only pictures are listed, and every picture is: a name is in the listing
/// exactly when some entry is a regular file of that name ending in `.jpg`,
/// `.JPG`, `.jpeg`, `.JPEG`, `.png` or `.PNG` (so a `.bmp` file, say, is
/// never listed or counted).
pub proof fn lemma_listing_holds_exactly_the_pictures(entries: Seq<DirEntryInfo>, name: Seq<char>)
    ensures
        listed_names(entries).contains(name) <==> exists|i: int|
            0 <= i < entries.len() && #[trigger] entries[i].is_file && entries[i].name is Some
                && entries[i].name->0@ == name && (has_suffix(name, ".jpg"@) || has_suffix(name, ".JPG"@) || has_suffix(name, ".jpeg"@) || has_suffix(name, ".JPEG"@) || has_suffix(name, ".png"@) || has_suffix(name, ".PNG"@)),
    decreases entries.len(),
{
    if entries.len() > 0 {
        let rest = entries.drop_last();
        lemma_listing_holds_exactly_the_pictures(rest, name);
        let last = entries.len() - 1;
        if exists|i: int|
            0 <= i < rest.len() && #[trigger] rest[i].is_file && rest[i].name is Some
                && rest[i].name->0@ == name && (has_suffix(name, ".jpg"@) || has_suffix(name, ".JPG"@) || has_suffix(name, ".jpeg"@) || has_suffix(name, ".JPEG"@) || has_suffix(name, ".png"@) || has_suffix(name, ".PNG"@)) {
            let i = choose|i: int|
                0 <= i < rest.len() && #[trigger] rest[i].is_file && rest[i].name is Some
                    && rest[i].name->0@ == name && (has_suffix(name, ".jpg"@) || has_suffix(name, ".JPG"@) || has_suffix(name, ".jpeg"@) || has_suffix(name, ".JPEG"@) || has_suffix(name, ".png"@) || has_suffix(name, ".PNG"@));
            assert(entries[i] == rest[i]);
        }
        if exists|i: int|
            0 <= i < entries.len() && #[trigger] entries[i].is_file && entries[i].name is Some
                && entries[i].name->0@ == name && (has_suffix(name, ".jpg"@) || has_suffix(name, ".JPG"@) || has_suffix(name, ".jpeg"@) || has_suffix(name, ".JPEG"@) || has_suffix(name, ".png"@) || has_suffix(name, ".PNG"@)) {
            let i = choose|i: int|
                0 <= i < entries.len() && #[trigger] entries[i].is_file && entries[i].name is Some
                    && entries[i].name->0@ == name && (has_suffix(name, ".jpg"@) || has_suffix(name, ".JPG"@) || has_suffix(name, ".jpeg"@) || has_suffix(name, ".JPEG"@) || has_suffix(name, ".png"@) || has_suffix(name, ".PNG"@));
            if i < last {
                assert(rest[i] == entries[i]);
                assert(rest[i].is_file);
                assert(listed_names(rest).contains(name));
                let p = choose|p: int| 0 <= p < listed_names(rest).len() && listed_names(rest)[p] == name;
                if is_listed(entries.last()) {
                    assert(listed_names(entries)[p] == name);
                } else {
                    assert(listed_names(entries) == listed_names(rest));
                }
                assert(listed_names(entries).contains(name));
            } else {
                assert(is_listed(entries.last()));
                assert(listed_names(entries) == listed_names(rest).push(name));
                assert(listed_names(entries)[listed_names(rest).len() as int] == name);
            }
        }
        if listed_names(entries).contains(name) {
            let p = choose|p: int| 0 <= p < listed_names(entries).len() && listed_names(entries)[p] == name;
            let mut from_rest = true;
            if is_listed(entries.last()) {
                if p < listed_names(rest).len() {
                    assert(listed_names(rest)[p] == name);
                } else {
                    from_rest = false;
                    assert(entries[last].name->0@ == name);
                    assert(entries[last].is_file);
                    assert((has_suffix(name, ".jpg"@) || has_suffix(name, ".JPG"@) || has_suffix(name, ".jpeg"@) || has_suffix(name, ".JPEG"@) || has_suffix(name, ".png"@) || has_suffix(name, ".PNG"@)));
                }
            }
            if from_rest {
                assert(listed_names(rest).contains(name));
                let i = choose|i: int|
                    0 <= i < rest.len() && #[trigger] rest[i].is_file && rest[i].name is Some
                        && rest[i].name->0@ == name && (has_suffix(name, ".jpg"@) || has_suffix(name, ".JPG"@) || has_suffix(name, ".jpeg"@) || has_suffix(name, ".JPEG"@) || has_suffix(name, ".png"@) || has_suffix(name, ".PNG"@));
                assert(entries[i] == rest[i]);
                assert(entries[i].is_file);
            }
        }
        assert(listed_names(entries).contains(name) ==> exists|i: int|
            0 <= i < entries.len() && #[trigger] entries[i].is_file && entries[i].name is Some
                && entries[i].name->0@ == name && (has_suffix(name, ".jpg"@) || has_suffix(name, ".JPG"@) || has_suffix(name, ".jpeg"@) || has_suffix(name, ".JPEG"@) || has_suffix(name, ".png"@) || has_suffix(name, ".PNG"@)));
        assert((exists|i: int|
            0 <= i < entries.len() && #[trigger] entries[i].is_file && entries[i].name is Some
                && entries[i].name->0@ == name && (has_suffix(name, ".jpg"@) || has_suffix(name, ".JPG"@) || has_suffix(name, ".jpeg"@) || has_suffix(name, ".JPEG"@) || has_suffix(name, ".png"@) || has_suffix(name, ".PNG"@))) ==> listed_names(entries).contains(name));
    }
}

/// What the listing answers holds only pictures: every name it lists ends in
/// one of the six picture suffixes and names a regular file among the
/// entries; the answer is code 0 exactly when there is such a file.
pub proof fn lemma_answer_lists_only_pictures(entries: Seq<DirEntryInfo>, r: (u32, Seq<char>, Seq<Seq<char>>))
    requires
        listing_of(entries, r),
    ensures
        forall|k: int|
            0 <= k < r.2.len() ==> (has_suffix(#[trigger] r.2[k], ".jpg"@) || has_suffix(#[trigger] r.2[k], ".JPG"@) || has_suffix(#[trigger] r.2[k], ".jpeg"@) || has_suffix(#[trigger] r.2[k], ".JPEG"@) || has_suffix(#[trigger] r.2[k], ".png"@) || has_suffix(#[trigger] r.2[k], ".PNG"@)) && exists|i: int|
                0 <= i < entries.len() && #[trigger] entries[i].is_file && entries[i].name is Some
                    && entries[i].name->0@ == r.2[k],
        (r.0 == 0) <==> exists|i: int|
            0 <= i < entries.len() && #[trigger] entries[i].is_file && entries[i].name is Some
                && (has_suffix(entries[i].name->0@, ".jpg"@) || has_suffix(entries[i].name->0@, ".JPG"@) || has_suffix(entries[i].name->0@, ".jpeg"@) || has_suffix(entries[i].name->0@, ".JPEG"@) || has_suffix(entries[i].name->0@, ".png"@) || has_suffix(entries[i].name->0@, ".PNG"@)),
{
    assert forall|k: int| 0 <= k < r.2.len() implies (has_suffix(#[trigger] r.2[k], ".jpg"@) || has_suffix(#[trigger] r.2[k], ".JPG"@) || has_suffix(#[trigger] r.2[k], ".jpeg"@) || has_suffix(#[trigger] r.2[k], ".JPEG"@) || has_suffix(#[trigger] r.2[k], ".png"@) || has_suffix(#[trigger] r.2[k], ".PNG"@)) && exists|i: int|
        0 <= i < entries.len() && #[trigger] entries[i].is_file && entries[i].name is Some
            && entries[i].name->0@ == r.2[k] by {
        assert(r.2.contains(r.2[k]));
        assert(r.2.to_multiset().count(r.2[k]) > 0);
        assert(listed_names(entries).to_multiset().count(r.2[k]) > 0);
        assert(listed_names(entries).contains(r.2[k]));
        lemma_listing_holds_exactly_the_pictures(entries, r.2[k]);
    }
    if listed_names(entries).len() > 0 {
        let n = listed_names(entries)[0];
        assert(listed_names(entries).contains(n));
        lemma_listing_holds_exactly_the_pictures(entries, n);
    }
    if exists|i: int|
        0 <= i < entries.len() && #[trigger] entries[i].is_file && entries[i].name is Some
            && (has_suffix(entries[i].name->0@, ".jpg"@) || has_suffix(entries[i].name->0@, ".JPG"@) || has_suffix(entries[i].name->0@, ".jpeg"@) || has_suffix(entries[i].name->0@, ".JPEG"@) || has_suffix(entries[i].name->0@, ".png"@) || has_suffix(entries[i].name->0@, ".PNG"@)) {
        let i = choose|i: int|
            0 <= i < entries.len() && #[trigger] entries[i].is_file && entries[i].name is Some
                && (has_suffix(entries[i].name->0@, ".jpg"@) || has_suffix(entries[i].name->0@, ".JPG"@) || has_suffix(entries[i].name->0@, ".jpeg"@) || has_suffix(entries[i].name->0@, ".JPEG"@) || has_suffix(entries[i].name->0@, ".png"@) || has_suffix(entries[i].name->0@, ".PNG"@));
        lemma_listing_holds_exactly_the_pictures(entries, entries[i].name->0@);
    }
}

} // verus!
