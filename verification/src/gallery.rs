//! The gallery of thumbnails: the pictures shown, which of them the user
//! picked, the filter on the picked state, and how the shown pictures are
//! dealt into four columns.
use vstd::prelude::*;
use vstd::string::*;
use image::DynamicImage;
use crate::imaging::{thumbnail_rgba, thumbnail_bytes, thumbnail_sums_fit, picture_dimensions,
    picture_pixels, picture_size};
use crate::text::{decimal, format_u64};

verus! {

/// The page on show: the gallery, or the directory chooser.
#[allow(non_camel_case_types)]
#[derive(Debug, Clone, Copy, PartialEq, Eq, Structural)]
pub enum PageChoice {
    MAIN,
    GD,
}

impl Default for PageChoice {
    fn default() -> (r: Self)
        ensures
            r == PageChoice::MAIN,
    {
        PageChoice::MAIN
    }
}

/// What the check box under a thumbnail reports.
#[derive(Debug, Clone, Copy, PartialEq, Eq, Structural)]
pub enum ImageMessage {
    Completed(bool),
}

/// Which thumbnails are shown: all, the ones not picked ("Active"), or the
/// picked ones ("Completed").
#[derive(Debug, Clone, Copy, PartialEq, Eq, Structural)]
pub enum Filter {
    All,
    Active,
    Completed,
}

impl Default for Filter {
    fn default() -> (r: Self)
        ensures
            r == Filter::All,
    {
        Filter::All
    }
}

/// One thumbnail: the file name, whether it is picked, its RGBA bytes, its
/// size, and the icon size it was made for.
#[derive(Debug, Clone)]
pub struct ImageItem {
    pub description: String,
    pub completed: bool,
    pub rgbconv: Vec<u8>,
    pub twidth: u32,
    pub theight: u32,
    pub ticon: u32,
}

/// Whether `filter` shows a thumbnail whose picked state is `completed`.
pub open spec fn shows(filter: Filter, completed: bool) -> bool {
    match filter {
        Filter::All => true,
        Filter::Active => !completed,
        Filter::Completed => completed,
    }
}

impl ImageItem {
    /// A new thumbnail, not picked.
    pub fn new(description: String, rgbconv: Vec<u8>, twidth: u32, theight: u32, ticon: u32) -> (r: Self)
        ensures
            r.description == description,
            !r.completed,
            r.rgbconv == rgbconv,
            r.twidth == twidth,
            r.theight == theight,
            r.ticon == ticon,
    {
        ImageItem { description, completed: false, rgbconv, twidth, theight, ticon }
    }

    /// Applies what the check box reported: only the picked state changes.
    pub fn update(&mut self, message: ImageMessage)
        ensures
            *final(self) == (ImageItem {
                completed: match message {
                    ImageMessage::Completed(c) => c,
                },
                ..*old(self)
            }),
    {
        match message {
            ImageMessage::Completed(completed) => {
                self.completed = completed;
            },
        }
    }
}

impl Filter {
    /// Whether this filter shows `imageitem`.
    pub fn matches(&self, imageitem: &ImageItem) -> (r: bool)
        ensures
            r == shows(*self, imageitem.completed),
    {
        match self {
            Filter::All => true,
            Filter::Active => !imageitem.completed,
            Filter::Completed => imageitem.completed,
        }
    }
}

/// The positions of the thumbnails that `filter` shows, in order.
pub open spec fn shown(images: Seq<ImageItem>, filter: Filter) -> Seq<int>
    decreases images.len(),
{
    if images.len() == 0 {
        Seq::empty()
    } else {
        let rest = shown(images.drop_last(), filter);
        if shows(filter, images.last().completed) {
            rest.push(images.len() - 1)
        } else {
            rest
        }
    }
}

/// The number of picked thumbnails.
pub open spec fn picked_count(images: Seq<ImageItem>) -> nat {
    shown(images, Filter::Completed).len()
}

/// The names of the picked thumbnails, in order.
pub open spec fn picked_names(images: Seq<ImageItem>) -> Seq<Seq<char>>
    decreases images.len(),
{
    if images.len() == 0 {
        Seq::empty()
    } else {
        let rest = picked_names(images.drop_last());
        if images.last().completed {
            rest.push(images.last().description@)
        } else {
            rest
        }
    }
}

/// The number of picked thumbnails.
pub fn selected_count(images: &Vec<ImageItem>) -> (r: usize)
    ensures
        r == picked_count(images@),
{
    let n = images.len();
    let mut count: usize = 0;
    let mut i: usize = 0;
    while i < n
        invariant
            n == images.len(),
            i <= n,
            count == shown(images@.take(i as int), Filter::Completed).len(),
            count <= i,
        decreases n - i,
    {
        assert(images@.take(i + 1).drop_last() =~= images@.take(i as int));
        if images[i].completed {
            count = count + 1;
        }
        i = i + 1;
    }
    assert(images@.take(n as int) =~= images@);
    count
}

/// The names of the picked thumbnails, in order.
pub fn selected_names(images: &Vec<ImageItem>) -> (r: Vec<String>)
    ensures
        r@.map_values(|s: String| s@) == picked_names(images@),
{
    let n = images.len();
    let mut names: Vec<String> = Vec::new();
    let mut i: usize = 0;
    while i < n
        invariant
            n == images.len(),
            i <= n,
            names@.map_values(|s: String| s@) =~= picked_names(images@.take(i as int)),
        decreases n - i,
    {
        assert(images@.take(i + 1).drop_last() =~= images@.take(i as int));
        if images[i].completed {
            names.push(images[i].description.clone());
        }
        i = i + 1;
    }
    assert(images@.take(n as int) =~= images@);
    names
}

/// The count line above the gallery: "1 file selected", "3 files selected".
pub open spec fn selection_text(count: nat) -> Seq<char> {
    decimal(count) + (if count == 1 { " file"@ } else { " files"@ }) + " selected"@
}

/// The count line above the gallery, for `count` picked thumbnails.
pub fn selection_label(count: usize) -> (r: String)
    ensures
        r@ == selection_text(count as nat),
{
    let mut s = format_u64(count as u64);
    if count == 1 {
        s.append(" file");
    } else {
        s.append(" files");
    }
    s.append(" selected");
    assert(s@ =~= selection_text(count as nat));
    s
}

/// The text shown in place of thumbnails when the filter shows none.
pub open spec fn empty_text(filter: Filter) -> Seq<char> {
    match filter {
        Filter::All => "No directory selected or no files in directory"@,
        Filter::Active => "All files have been selected"@,
        Filter::Completed => "No files have been selected"@,
    }
}

/// The text shown in place of thumbnails when the filter shows none.
pub fn empty_message(filter: Filter) -> (r: String)
    ensures
        r@ == empty_text(filter),
{
    match filter {
        Filter::All => String::from_str("No directory selected or no files in directory"),
        Filter::Active => String::from_str("All files have been selected"),
        Filter::Completed => String::from_str("No files have been selected"),
    }
}

/// The entries of `s` whose rank in `s` leaves `c` when divided by four:
/// the shown thumbnails dealt in turn into columns 0, 1, 2, 3.
pub open spec fn dealt(s: Seq<int>, c: int) -> Seq<int>
    decreases s.len(),
{
    if s.len() == 0 {
        Seq::empty()
    } else {
        let rest = dealt(s.drop_last(), c);
        if (s.len() - 1) % 4 == c {
            rest.push(s.last())
        } else {
            rest
        }
    }
}

/// How the gallery is laid out: the thumbnail positions in each of the four
/// columns, and how many columns are put on screen.
pub struct GalleryLayout {
    pub columns: Vec<Vec<usize>>,
    pub visible: usize,
}

/// The number of columns on screen: one (holding the empty text) when the
/// filter shows nothing, else one for each thumbnail in the list up to four.
pub open spec fn visible_columns(images: Seq<ImageItem>, filter: Filter) -> nat {
    if shown(images, filter).len() == 0 {
        1
    } else if images.len() < 4 {
        images.len()
    } else {
        4
    }
}

/// Deals the thumbnails that `filter` shows into four columns, in turn.
pub fn layout_gallery(images: &Vec<ImageItem>, filter: Filter) -> (r: GalleryLayout)
    ensures
        r.columns.len() == 4,
        forall|c: int| 0 <= c < 4 ==> (#[trigger] r.columns@[c])@.map_values(|k: usize| k as int) == dealt(shown(images@, filter), c),
        r.visible == visible_columns(images@, filter),
{
    let n = images.len();
    let mut cols: Vec<Vec<usize>> = Vec::new();
    cols.push(Vec::new());
    cols.push(Vec::new());
    cols.push(Vec::new());
    cols.push(Vec::new());
    let mut colpos: usize = 0;
    let mut count: usize = 0;
    let mut i: usize = 0;
    while i < n
        invariant
            n == images.len(),
            i <= n,
            cols.len() == 4,
            count == shown(images@.take(i as int), filter).len(),
            count <= i,
            colpos == count % 4,
            forall|c: int| 0 <= c < 4 ==> (#[trigger] cols@[c])@.map_values(|k: usize| k as int) =~= dealt(shown(images@.take(i as int), filter), c),
        decreases n - i,
    {
        let ghost prev = shown(images@.take(i as int), filter);
        assert(images@.take(i + 1).drop_last() =~= images@.take(i as int));
        assert(images@.take(i + 1).last() == images@[i as int]);
        if filter.matches(&images[i]) {
            let ghost old_cols = cols@;
            let mut col = cols.remove(colpos);
            col.push(i);
            cols.insert(colpos, col);
            proof {
                let next = prev.push(i as int);
                assert(shown(images@.take(i + 1), filter) == next);
                assert(next.drop_last() =~= prev);
                assert forall|c: int| 0 <= c < 4 implies (#[trigger] cols@[c])@.map_values(|k: usize| k as int) =~= dealt(next, c) by {
                    if c == colpos {
                        assert(cols@[c] == col);
                    } else {
                        assert(cols@[c] == old_cols[c]);
                    }
                }
            }
            colpos = if colpos == 3 { 0 } else { colpos + 1 };
            count = count + 1;
        }
        i = i + 1;
    }
    assert(images@.take(n as int) =~= images@);
    let visible = if count == 0 {
        1
    } else if n < 4 {
        n
    } else {
        4
    };
    GalleryLayout { columns: cols, visible }
}

/// The size of a thumbnail for a picture of `iwidth` by `iheight` pixels:
/// the longer side becomes `icon`, the other is scaled down with it,
/// rounding down; a square picture is scaled by its height.
pub open spec fn thumb_size(iwidth: nat, iheight: nat, icon: nat) -> (nat, nat) {
    if iwidth > iheight {
        (icon, icon * iheight / iwidth)
    } else {
        (icon * iwidth / iheight, icon)
    }
}

/// The size of a thumbnail, as the gallery computes it in `u32` arithmetic.
pub fn thumbnail_size(iwidth: u32, iheight: u32, icon: u32) -> (r: (u32, u32))
    requires
        iwidth > iheight || iheight > 0,
        iwidth > iheight ==> icon * iheight <= u32::MAX,
        iwidth <= iheight ==> icon * iwidth <= u32::MAX,
    ensures
        (r.0 as nat, r.1 as nat) == thumb_size(iwidth as nat, iheight as nat, icon as nat),
        r.0 <= icon,
        r.1 <= icon,
{
    if iwidth > iheight {
        let h = icon * iheight / iwidth;
        assert((icon as nat) * (iheight as nat) / (iwidth as nat) <= icon as nat) by (nonlinear_arith)
            requires
                iheight < iwidth,
        ;
        (icon, h)
    } else {
        let w = icon * iwidth / iheight;
        assert((icon as nat) * (iwidth as nat) / (iheight as nat) <= icon as nat) by (nonlinear_arith)
            requires
                iwidth <= iheight,
                iheight > 0,
        ;
        (w, icon)
    }
}

/// A picture whose header gave `iwidth` by `iheight` and that decoded as
/// `img` can be made into a thumbnail of icon size `icon` without the
/// arithmetic failing: no division by zero, no `u32` overflow in the size,
/// a buffer that fits `usize`, and channel sums that fit the picture crate.
pub open spec fn thumbnail_fits(iwidth: u32, iheight: u32, icon: u32, img: DynamicImage) -> bool {
    let (w, h) = thumb_size(iwidth as nat, iheight as nat, icon as nat);
    &&& iwidth > iheight || iheight > 0
    &&& iwidth > iheight ==> icon * iheight <= u32::MAX
    &&& iwidth <= iheight ==> icon * iwidth <= u32::MAX
    &&& 4 * w * h <= usize::MAX
    &&& thumbnail_sums_fit(img, w as u32, h as u32)
}

/// `item` is the thumbnail of picture `name`, decoded as `img` with header
/// size `iwidth` by `iheight`, at icon size `icon`: its size is
/// [`thumb_size`], its bytes are the picture crate's thumbnail at that size,
/// and it is not picked.
pub open spec fn thumbnail_of(item: ImageItem, name: String, iwidth: u32, iheight: u32, icon: u32, img: DynamicImage) -> bool {
    &&& item.description == name
    &&& !item.completed
    &&& (item.twidth as nat, item.theight as nat) == thumb_size(iwidth as nat, iheight as nat, icon as nat)
    &&& item.ticon == icon
    &&& item.rgbconv.len() == 4 * item.twidth * item.theight
    &&& item.rgbconv@ == thumbnail_bytes(picture_pixels(img), picture_size(img), item.twidth, item.theight)
}

/// A thumbnail for the picture `name`, decoded as `img`, whose file header
/// gave `iwidth` by `iheight`: the size is [`thumb_size`], the bytes are the
/// picture shrunk to that size, four to a pixel, and it is not picked.
pub fn make_image_item(name: String, img: &DynamicImage, iwidth: u32, iheight: u32, icon: u32) -> (r: ImageItem)
    requires
        thumbnail_fits(iwidth, iheight, icon, *img),
    ensures
        thumbnail_of(r, name, iwidth, iheight, icon, *img),
{
    let (w, h) = thumbnail_size(iwidth, iheight, icon);
    let rgbconv = thumbnail_rgba(img, w, h);
    ImageItem::new(name, rgbconv, w, h, icon)
}

/// Whether a thumbnail of icon size `icon` can be made of the picture whose
/// header gave `iwidth` by `iheight` and that decoded as `img`.
pub fn thumbnail_fits_check(iwidth: u32, iheight: u32, icon: u32, img: &DynamicImage) -> (r: bool)
    ensures
        r == thumbnail_fits(iwidth, iheight, icon, *img),
{
    if !(iwidth > iheight || iheight > 0) {
        return false;
    }
    let wide = iwidth > iheight;
    let short: u32 = if wide { iheight } else { iwidth };
    assert((icon as u64) * (short as u64) <= 4294967295u64 * 4294967295u64) by (nonlinear_arith)
        requires
            icon <= 4294967295u64,
            short <= 4294967295u64,
    ;
    let product: u64 = (icon as u64) * (short as u64);
    if product > 4294967295 {
        return false;
    }
    let (tw, th) = thumbnail_size(iwidth, iheight, icon);
    assert(4 * (tw as u128) * (th as u128) <= 4 * 4294967295u128 * 4294967295u128) by (nonlinear_arith)
        requires
            tw <= 4294967295u128,
            th <= 4294967295u128,
    ;
    let bytes: u128 = 4 * (tw as u128) * (th as u128);
    if bytes > usize::MAX as u128 {
        return false;
    }
    let (w, h) = picture_dimensions(img);
    if w == 0 || h == 0 || tw == 0 || th == 0 {
        return true;
    }
    if w > 16777216 || h > 16777216 {
        return false;
    }
    assert(w / tw <= w) by (nonlinear_arith)
        requires
            tw > 0,
    ;
    assert(h / th <= h) by (nonlinear_arith)
        requires
            th > 0,
    ;
    let a: u64 = (w / tw) as u64 + 8;
    let b: u64 = (h / th) as u64 + 8;
    assert(256 * a * b <= 256 * 16777224 * 16777224) by (nonlinear_arith)
        requires
            a <= 16777224,
            b <= 16777224,
    ;
    let sums: u64 = 256 * a * b;
    sums <= 4294967295
}

/// The positions of a group whose picture header could be read, in order.
pub open spec fn readable_positions(loaded: Seq<Option<(u32, u32, DynamicImage)>>) -> Seq<int>
    decreases loaded.len(),
{
    if loaded.len() == 0 {
        Seq::empty()
    } else {
        let rest = readable_positions(loaded.drop_last());
        if loaded.last() is Some {
            rest.push(loaded.len() - 1)
        } else {
            rest
        }
    }
}

/// The thumbnails of a listed group. `names` are the group's pictures in
/// order; `loaded` holds, for each, the header size and decoded picture, or
/// nothing where the header could not be read. The gallery holds, in order,
/// the thumbnail of each picture whose header could be read, and skips the
/// others.
pub fn group_gallery(names: &Vec<String>, loaded: &Vec<Option<(u32, u32, DynamicImage)>>, icon: u32) -> (r: Vec<ImageItem>)
    requires
        names.len() == loaded.len(),
        forall|k: int|
            0 <= k < loaded.len() ==> (#[trigger] loaded@[k] matches Some((iw, ih, img))
                ==> thumbnail_fits(iw, ih, icon, img)),
    ensures
        r.len() == readable_positions(loaded@).len(),
        forall|j: int|
            0 <= j < r.len() ==> {
                let k = readable_positions(loaded@)[j];
                let l = loaded@[k]->0;
                thumbnail_of(#[trigger] r@[j], names@[k], l.0, l.1, icon, l.2)
            },
{
    let n = loaded.len();
    let mut items: Vec<ImageItem> = Vec::new();
    let mut i: usize = 0;
    while i < n
        invariant
            n == loaded.len(),
            n == names.len(),
            i <= n,
            forall|k: int|
                0 <= k < loaded.len() ==> (#[trigger] loaded@[k] matches Some((iw, ih, img))
                    ==> thumbnail_fits(iw, ih, icon, img)),
            items.len() == readable_positions(loaded@.take(i as int)).len(),
            forall|j: int|
                0 <= j < items.len() ==> {
                    let k = readable_positions(loaded@.take(i as int))[j];
                    let l = loaded@[k]->0;
                    thumbnail_of(#[trigger] items@[j], names@[k], l.0, l.1, icon, l.2)
                },
        decreases n - i,
    {
        let ghost before = readable_positions(loaded@.take(i as int));
        proof {
            assert(loaded@.take(i + 1).drop_last() =~= loaded@.take(i as int));
            assert(loaded@.take(i + 1).last() == loaded@[i as int]);
        }
        match &loaded[i] {
            Some((iw, ih, img)) => {
                let item = make_image_item(names[i].clone(), img, *iw, *ih, icon);
                items.push(item);
                proof {
                    let after = readable_positions(loaded@.take(i + 1));
                    assert(after == before.push(i as int));
                    assert forall|j: int| 0 <= j < items.len() implies {
                        let k = after[j];
                        let l = loaded@[k]->0;
                        thumbnail_of(#[trigger] items@[j], names@[k], l.0, l.1, icon, l.2)
                    } by {
                        if j < before.len() {
                            assert(after[j] == before[j]);
                        }
                    }
                }
            },
            None => {},
        }
        i = i + 1;
    }
    assert(loaded@.take(n as int) =~= loaded@);
    items
}

/// The names of a listed group: positions `from` to `to` of the listing,
/// counted from one; none where the group is empty.
pub fn group_names(listitems: &Vec<String>, from: i32, to: i32) -> (r: Vec<String>)
    requires
        from > i32::MIN,
        from - 1 >= to || (1 <= from && to <= listitems.len()),
    ensures
        from - 1 >= to ==> r@.len() == 0,
        from - 1 < to ==> r@ == listitems@.subrange(from - 1, to as int),
{
    let mut names: Vec<String> = Vec::new();
    let start = from - 1;
    if start >= to {
        return names;
    }
    let mut i: i32 = start;
    while i < to
        invariant
            0 <= start <= i <= to,
            to <= listitems.len(),
            start == from - 1,
            names@.len() == i - start,
            forall|k: int| 0 <= k < i - start ==> #[trigger] names@[k] == listitems@[start + k],
        decreases to - i,
    {
        let name = listitems[i as usize].clone();
        assert(name == listitems@[i as int]);
        names.push(name);
        i = i + 1;
    }
    assert(names@ =~= listitems@.subrange(from - 1, to as int));
    names
}

/// A filter shows a thumbnail exactly as its picked state says: "All" shows
/// every thumbnail, and every thumbnail is shown by exactly one of "Active"
/// and "Completed"; so those two counts add up to the whole list.
pub proof fn lemma_filters_partition(images: Seq<ImageItem>)
    ensures
        shown(images, Filter::All).len() == images.len(),
        shown(images, Filter::Active).len() + shown(images, Filter::Completed).len() == images.len(),
    decreases images.len(),
{
    if images.len() > 0 {
        lemma_filters_partition(images.drop_last());
    }
}

/// Dealing into columns loses and repeats nothing: the four columns together
/// hold as many entries as were dealt.
pub proof fn lemma_dealt_partition(s: Seq<int>)
    ensures
        dealt(s, 0).len() + dealt(s, 1).len() + dealt(s, 2).len() + dealt(s, 3).len() == s.len(),
    decreases s.len(),
{
    if s.len() > 0 {
        lemma_dealt_partition(s.drop_last());
    }
}

} // verus!

verus! {

/// Every loaded picture of a group can be made into a thumbnail.
pub open spec fn group_fits(loaded: Seq<Option<(u32, u32, DynamicImage)>>, icon: u32) -> bool {
    forall|k: int|
        0 <= k < loaded.len() ==> (#[trigger] loaded[k] matches Some((iw, ih, img))
            ==> thumbnail_fits(iw, ih, icon, img))
}

/// The thumbnails of a listed group, as [`group_gallery`] makes them, where
/// every loaded picture can be made into a thumbnail; `None` where one
/// cannot (the size arithmetic or the picture crate's sums would fail).
pub fn checked_group_gallery(names: &Vec<String>, loaded: &Vec<Option<(u32, u32, DynamicImage)>>, icon: u32) -> (r: Option<Vec<ImageItem>>)
    requires
        names.len() == loaded.len(),
    ensures
        r is Some <==> group_fits(loaded@, icon),
        r matches Some(items) ==> {
            &&& items.len() == readable_positions(loaded@).len()
            &&& forall|j: int|
                0 <= j < items.len() ==> {
                    let k = readable_positions(loaded@)[j];
                    let l = loaded@[k]->0;
                    thumbnail_of(#[trigger] items@[j], names@[k], l.0, l.1, icon, l.2)
                }
        },
{
    let n = loaded.len();
    let mut i: usize = 0;
    while i < n
        invariant
            n == loaded.len(),
            i <= n,
            forall|k: int|
                0 <= k < i ==> (#[trigger] loaded@[k] matches Some((iw, ih, img))
                    ==> thumbnail_fits(iw, ih, icon, img)),
        decreases n - i,
    {
        match &loaded[i] {
            Some((iw, ih, img)) => {
                if !thumbnail_fits_check(*iw, *ih, icon, img) {
                    assert(!(loaded@[i as int] matches Some((iw, ih, img)) ==> thumbnail_fits(iw, ih, icon, img)));
                    return None;
                }
            },
            None => {},
        }
        i = i + 1;
    }
    Some(group_gallery(names, loaded, icon))
}

} // verus!

verus! {

/// A picture gets a thumbnail whenever the thumbnail arithmetic cannot fail:
/// its header is not 0 by 0, the icon size times the shorter side fits a
/// `u32`, the thumbnail's bytes fit a `usize`, and the picture crate's channel
/// sums fit; no other bound is put on the picture's size.
pub proof fn lemma_thumbnail_fits_when_arithmetic_safe(iwidth: u32, iheight: u32, icon: u32, img: DynamicImage)
    requires
        iwidth > iheight || iheight > 0,
        iwidth > iheight ==> icon * iheight <= u32::MAX,
        iwidth <= iheight ==> icon * iwidth <= u32::MAX,
        iwidth > iheight ==> 4 * icon * ((icon as nat) * (iheight as nat) / (iwidth as nat)) <= usize::MAX,
        iwidth <= iheight ==> 4 * ((icon as nat) * (iwidth as nat) / (iheight as nat)) * icon <= usize::MAX,
        iwidth > iheight ==> thumbnail_sums_fit(img, icon, ((icon as nat) * (iheight as nat) / (iwidth as nat)) as u32),
        iwidth <= iheight ==> thumbnail_sums_fit(img, ((icon as nat) * (iwidth as nat) / (iheight as nat)) as u32, icon),
    ensures
        thumbnail_fits(iwidth, iheight, icon, img),
{
}

/// A group's gallery is made, not refused, whenever every loaded picture
/// meets the conditions of [`lemma_thumbnail_fits_when_arithmetic_safe`].
pub proof fn lemma_group_gallery_made_when_arithmetic_safe(loaded: Seq<Option<(u32, u32, DynamicImage)>>, icon: u32)
    requires
        forall|k: int|
            0 <= k < loaded.len() ==> (#[trigger] loaded[k] matches Some((iw, ih, img)) ==> {
                &&& iw > ih || ih > 0
                &&& iw > ih ==> icon * ih <= u32::MAX
                &&& iw <= ih ==> icon * iw <= u32::MAX
                &&& iw > ih ==> 4 * icon * ((icon as nat) * (ih as nat) / (iw as nat)) <= usize::MAX
                &&& iw <= ih ==> 4 * ((icon as nat) * (iw as nat) / (ih as nat)) * icon <= usize::MAX
                &&& iw > ih ==> thumbnail_sums_fit(img, icon, ((icon as nat) * (ih as nat) / (iw as nat)) as u32)
                &&& iw <= ih ==> thumbnail_sums_fit(img, ((icon as nat) * (iw as nat) / (ih as nat)) as u32, icon)
            }),
    ensures
        group_fits(loaded, icon),
{
    assert forall|k: int| 0 <= k < loaded.len() implies (#[trigger] loaded[k] matches Some((iw, ih, img))
        ==> thumbnail_fits(iw, ih, icon, img)) by {
        if loaded[k] is Some {
            let (iw, ih, img) = loaded[k]->0;
            lemma_thumbnail_fits_when_arithmetic_safe(iw, ih, icon, img);
        }
    }
}

} // verus!
