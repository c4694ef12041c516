//! The images attached to an upload, and the one of them that is selected.

use vstd::prelude::*;
use vstd::std_specs::cmp::PartialEqSpecImpl;

verus! {

/// An attached image: where it lies, the name of the file, and its size in
/// bytes.
#[derive(Debug, Eq)]
pub struct Image {
    pub path: String,
    pub filename: String,
    pub size: u64,
}

/// What an image is in contracts.
pub struct ImageModel {
    pub path: Seq<char>,
    pub filename: Seq<char>,
    pub size: u64,
}

impl View for Image {
    type V = ImageModel;

    open spec fn view(&self) -> ImageModel {
        ImageModel { path: self.path@, filename: self.filename@, size: self.size }
    }
}

impl DeepView for Image {
    type V = ImageModel;

    open spec fn deep_view(&self) -> ImageModel {
        self@
    }
}

impl Clone for Image {
    fn clone(&self) -> (copy: Image)
        ensures
            copy@ == self@,
    {
        Image { path: self.path.clone(), filename: self.filename.clone(), size: self.size }
    }
}

impl PartialEq for Image {
    /// Two images are the same image when they lie at the same path.
    fn eq(&self, other: &Self) -> (same: bool) {
        self.path == other.path
    }
}

impl PartialEqSpecImpl for Image {
    open spec fn obeys_eq_spec() -> bool {
        true
    }

    open spec fn eq_spec(&self, other: &Image) -> bool {
        self.path@ == other.path@
    }
}

impl Image {
    /// An image with the given path, file name and size.
    pub fn new(path: &str, filename: &str, size: u64) -> (image: Image)
        ensures
            image@ == (ImageModel { path: path@, filename: filename@, size }),
    {
        Image { path: path.to_owned(), filename: filename.to_owned(), size }
    }
}

/// Whether one of `images` lies at `path`.
pub open spec fn holds_path(images: Seq<ImageModel>, path: Seq<char>) -> bool {
    exists|i: int| 0 <= i < images.len() && (#[trigger] images[i]).path == path
}

/// Whether no two of `images` lie at the same path.
pub open spec fn paths_differ(images: Seq<ImageModel>) -> bool {
    forall|i: int, j: int|
        0 <= i < j < images.len() ==> (#[trigger] images[i]).path != (#[trigger] images[j]).path
}

/// Those of the `picked` images that are new: in the order in which they were
/// picked, each one whose path neither one of the `current` images nor an
/// image picked before it has.
pub open spec fn kept(current: Seq<ImageModel>, picked: Seq<ImageModel>) -> Seq<ImageModel>
    decreases picked.len(),
{
    if picked.len() == 0 {
        Seq::empty()
    } else {
        let before = kept(current, picked.drop_last());
        let image = picked.last();
        if holds_path(current, image.path) || holds_path(before, image.path) {
            before
        } else {
            before.push(image)
        }
    }
}

/// The file names of those of the `picked` images that are not new, in the
/// order in which they were picked.
pub open spec fn duplicates(current: Seq<ImageModel>, picked: Seq<ImageModel>) -> Seq<Seq<char>>
    decreases picked.len(),
{
    if picked.len() == 0 {
        Seq::empty()
    } else {
        let before = duplicates(current, picked.drop_last());
        let image = picked.last();
        if holds_path(current, image.path) || holds_path(
            kept(current, picked.drop_last()),
            image.path,
        ) {
            before.push(image.filename)
        } else {
            before
        }
    }
}

/// `images` with the entries at `i` and `j` exchanged.
pub open spec fn exchanged(images: Seq<ImageModel>, i: int, j: int) -> Seq<ImageModel> {
    images.update(i, images[j]).update(j, images[i])
}

/// Every picked image is kept or counted as a duplicate; the kept images lie
/// at paths that differ from one another and from those of the current
/// images; and every picked path is, after that, the path of a current or of
/// a kept image.
pub proof fn lemma_kept_and_duplicates(current: Seq<ImageModel>, picked: Seq<ImageModel>)
    requires
        paths_differ(current),
    ensures
        kept(current, picked).len() + duplicates(current, picked).len() == picked.len(),
        paths_differ(current + kept(current, picked)),
        forall|k: int|
            0 <= k < picked.len() ==> holds_path(
                current + kept(current, picked),
                (#[trigger] picked[k]).path,
            ),
        forall|k: int|
            0 <= k < kept(current, picked).len() ==> picked.contains(
                #[trigger] kept(current, picked)[k],
            ),
    decreases picked.len(),
{
    if picked.len() > 0 {
        let rest = picked.drop_last();
        let image = picked.last();
        let before = kept(current, rest);
        let after = kept(current, picked);
        lemma_kept_and_duplicates(current, rest);
        let all = current + after;
        if holds_path(current, image.path) || holds_path(before, image.path) {
            let w = if holds_path(current, image.path) {
                choose|i: int| 0 <= i < current.len() && (#[trigger] current[i]).path == image.path
            } else {
                current.len() + choose|i: int|
                    0 <= i < before.len() && (#[trigger] before[i]).path == image.path
            };
            assert(all[w].path == image.path);
        } else {
            assert(all =~= (current + before).push(image));
            assert forall|i: int, j: int| 0 <= i < j < all.len() implies (#[trigger] all[i]).path != (
            #[trigger] all[j]).path by {
                if j == all.len() - 1 {
                    if i < current.len() {
                        assert(current[i].path != image.path);
                    } else {
                        assert(before[i - current.len()].path != image.path);
                    }
                } else {
                    assert(all[i] == (current + before)[i] && all[j] == (current + before)[j]);
                }
            }
            assert(all[all.len() - 1].path == image.path);
        }
        assert forall|k: int| 0 <= k < picked.len() implies holds_path(
            all,
            (#[trigger] picked[k]).path,
        ) by {
            if k < rest.len() {
                assert(rest[k] == picked[k]);
                let w = choose|i: int|
                    0 <= i < (current + before).len() && (#[trigger] (current + before)[i]).path
                        == rest[k].path;
                assert(all[w] == (current + before)[w]);
            }
        }
        assert forall|k: int| 0 <= k < after.len() implies picked.contains(#[trigger] after[k]) by {
            if k < before.len() {
                assert(rest.contains(before[k]));
                let w = choose|i: int| 0 <= i < rest.len() && rest[i] == before[k];
                assert(picked[w] == before[k]);
            } else {
                assert(picked[picked.len() - 1] == after[k]);
            }
        }
    } else {
        assert(current + kept(current, picked) =~= current);
    }
}

/// Images that lie at paths of their own, different from one another and
/// from those of the current images, are all kept, and none of them counts as
/// a duplicate. So the images that one split has kept pass the next one
/// whole.
pub proof fn lemma_new_images_are_kept(current: Seq<ImageModel>, fresh: Seq<ImageModel>)
    requires
        paths_differ(current + fresh),
    ensures
        kept(current, fresh) == fresh,
        duplicates(current, fresh) == Seq::<Seq<char>>::empty(),
    decreases fresh.len(),
{
    if fresh.len() > 0 {
        let rest = fresh.drop_last();
        let image = fresh.last();
        let all = current + fresh;
        assert forall|i: int, j: int| 0 <= i < j < (current + rest).len() implies (#[trigger] (current
            + rest)[i]).path != (#[trigger] (current + rest)[j]).path by {
            assert((current + rest)[i] == all[i] && (current + rest)[j] == all[j]);
        }
        lemma_new_images_are_kept(current, rest);
        assert(all[all.len() - 1] == image);
        if holds_path(current, image.path) {
            let w = choose|i: int| 0 <= i < current.len() && (#[trigger] current[i]).path == image.path;
            assert(all[w] == current[w]);
        }
        if holds_path(rest, image.path) {
            let w = choose|i: int| 0 <= i < rest.len() && (#[trigger] rest[i]).path == image.path;
            assert(all[current.len() + w] == rest[w]);
        }
        assert(kept(current, fresh) =~= fresh);
    } else {
        assert(kept(current, fresh) =~= fresh);
    }
}

/// Whether one of `images` lies at `path`.
pub fn lies_among(images: &Vec<Image>, path: &String) -> (found: bool)
    ensures
        found == holds_path(images.deep_view(), path@),
{
    let mut i: usize = 0;
    while i < images.len()
        invariant
            i <= images.len(),
            forall|k: int| 0 <= k < i ==> (#[trigger] images.deep_view()[k]).path != path@,
        decreases images.len() - i,
    {
        if images[i].path == *path {
            assert(images.deep_view()[i as int].path == path@);
            return true;
        }
        i += 1;
    }
    false
}

/// Sorts the `picked` images into those that are new and the file names of
/// those that are not: an image is new when its path is neither the path of
/// one of the `current` images nor that of an image picked before it.
pub fn split_picked(current: &Vec<Image>, picked: Vec<Image>) -> (sorted: (Vec<Image>, Vec<String>))
    ensures
        sorted.0.deep_view() == kept(current.deep_view(), picked.deep_view()),
        sorted.1.deep_view() == duplicates(current.deep_view(), picked.deep_view()),
{
    let mut fresh: Vec<Image> = Vec::new();
    let mut names: Vec<String> = Vec::new();
    let ghost models = picked.deep_view();
    proof {
        assert(models.take(0) =~= Seq::<ImageModel>::empty());
        assert(fresh.deep_view() =~= Seq::<ImageModel>::empty());
        assert(names.deep_view() =~= Seq::<Seq<char>>::empty());
    }
    for image in it: picked
        invariant
            it.seq() == picked@,
            models == picked.deep_view(),
            fresh.deep_view() == kept(current.deep_view(), models.take(it.index() as int)),
            names.deep_view() == duplicates(current.deep_view(), models.take(it.index() as int)),
    {
        let ghost done = models.take(it.index() as int);
        let ghost next = models.take(it.index() + 1);
        let ghost old_fresh = fresh.deep_view();
        let ghost old_names = names.deep_view();
        proof {
            assert(next.drop_last() =~= done);
            assert(next.last() == image@);
        }
        if lies_among(current, &image.path) || lies_among(&fresh, &image.path) {
            let ghost name = image.filename@;
            names.push(image.filename);
            assert(names.deep_view() =~= old_names.push(name));
        } else {
            let ghost model = image@;
            fresh.push(image);
            assert(fresh.deep_view() =~= old_fresh.push(model));
        }
    }
    assert(models.take(picked@.len() as int) =~= models);
    (fresh, names)
}

/// What a gallery is in contracts: its images in order, and the place of the
/// selected one.
pub struct GalleryModel {
    pub images: Seq<ImageModel>,
    pub selected: Option<int>,
}

/// Whether `g` can be a gallery: no two images lie at the same path, and the
/// selected place, if any, holds an image.
pub open spec fn is_gallery(g: GalleryModel) -> bool {
    &&& paths_differ(g.images)
    &&& g.selected matches Some(i) ==> 0 <= i < g.images.len()
}

/// The images attached to an upload, in the order in which they will be
/// shown, and the place of the one that is selected.
pub struct Gallery {
    images: Vec<Image>,
    selected_index: Option<usize>,
}

impl View for Gallery {
    type V = GalleryModel;

    closed spec fn view(&self) -> GalleryModel {
        GalleryModel {
            images: self.images.deep_view(),
            selected: match self.selected_index {
                Some(i) => Some(i as int),
                None => None,
            },
        }
    }
}

impl Gallery {
    #[verifier::type_invariant]
    spec fn well_formed(self) -> bool {
        is_gallery(self@)
    }

    /// The gallery without images.
    pub fn new() -> (gallery: Gallery)
        ensures
            gallery@ == (GalleryModel { images: Seq::empty(), selected: None }),
    {
        let images: Vec<Image> = Vec::new();
        assert(images.deep_view() =~= Seq::<ImageModel>::empty());
        Gallery { images, selected_index: None }
    }

    /// The images, in order.
    pub fn images(&self) -> (images: &Vec<Image>)
        ensures
            images.deep_view() == self@.images,
            is_gallery(self@),
    {
        proof {
            use_type_invariant(self);
        }
        &self.images
    }

    /// How many images there are.
    pub fn len(&self) -> (n: usize)
        ensures
            n == self@.images.len(),
    {
        self.images.len()
    }

    /// Whether there is no image.
    pub fn is_empty(&self) -> (empty: bool)
        ensures
            empty == (self@.images.len() == 0),
    {
        self.images.len() == 0
    }

    /// The place of the selected image.
    pub fn selected_index(&self) -> (selected: Option<usize>)
        ensures
            match selected {
                Some(i) => self@.selected == Some(i as int) && i < self@.images.len(),
                None => self@.selected.is_none(),
            },
    {
        proof {
            use_type_invariant(self);
        }
        self.selected_index
    }

    /// Selects the image at `index`. Nothing changes where there is no such
    /// image.
    pub fn select(&mut self, index: usize)
        ensures
            final(self)@.images == old(self)@.images,
            final(self)@.selected == if index < old(self)@.images.len() {
                Some(index as int)
            } else {
                old(self)@.selected
            },
            is_gallery(final(self)@),
    {
        proof {
            use_type_invariant(&*self);
        }
        if index < self.images.len() {
            self.selected_index = Some(index);
        }
    }

    /// Adds those of the `picked` images that are new to the end, and gives
    /// the file names of the others. The selection stays.
    pub fn append(&mut self, picked: Vec<Image>) -> (rejected: Vec<String>)
        ensures
            final(self)@.images == old(self)@.images + kept(old(self)@.images, picked.deep_view()),
            final(self)@.selected == old(self)@.selected,
            rejected.deep_view() == duplicates(old(self)@.images, picked.deep_view()),
            is_gallery(final(self)@),
    {
        proof {
            use_type_invariant(&*self);
            lemma_kept_and_duplicates(self@.images, picked.deep_view());
        }
        let ghost before = self@.images;
        let (mut fresh, rejected) = split_picked(&self.images, picked);
        let ghost added = fresh.deep_view();
        let mut images: Vec<Image> = Vec::new();
        let selected = self.selected_index;
        self.selected_index = None;
        core::mem::swap(&mut self.images, &mut images);
        images.append(&mut fresh);
        assert(images.deep_view() =~= before + added);
        self.images = images;
        self.selected_index = selected;
        rejected
    }

    /// Moves the selected image one place towards the front, and the
    /// selection with it. Nothing changes where no image is selected or the
    /// first one is.
    pub fn move_up(&mut self)
        ensures
            final(self)@ == match old(self)@.selected {
                Some(i) if i > 0 => GalleryModel {
                    images: exchanged(old(self)@.images, i, i - 1),
                    selected: Some(i - 1),
                },
                _ => old(self)@,
            },
            is_gallery(final(self)@),
    {
        proof {
            use_type_invariant(&*self);
        }
        if let Some(i) = self.selected_index {
            if i != 0 {
                self.exchange_with_next(i - 1);
                self.selected_index = Some(i - 1);
            }
        }
    }

    /// Moves the selected image one place towards the end, and the selection
    /// with it. Nothing changes where no image is selected or the last one
    /// is.
    pub fn move_down(&mut self)
        ensures
            final(self)@ == match old(self)@.selected {
                Some(i) if i + 1 < old(self)@.images.len() => GalleryModel {
                    images: exchanged(old(self)@.images, i, i + 1),
                    selected: Some(i + 1),
                },
                _ => old(self)@,
            },
            is_gallery(final(self)@),
    {
        proof {
            use_type_invariant(&*self);
        }
        if let Some(i) = self.selected_index {
            if i != self.images.len() - 1 {
                self.exchange_with_next(i);
                self.selected_index = Some(i + 1);
            }
        }
    }

    /// Takes the selected image out of the gallery; after that no image is
    /// selected. Nothing changes where no image is selected.
    pub fn remove_selected(&mut self)
        ensures
            final(self)@ == match old(self)@.selected {
                Some(i) => GalleryModel { images: old(self)@.images.remove(i), selected: None },
                None => old(self)@,
            },
            is_gallery(final(self)@),
    {
        proof {
            use_type_invariant(&*self);
        }
        if let Some(i) = self.selected_index {
            let ghost before = self@.images;
            let mut images: Vec<Image> = Vec::new();
            self.selected_index = None;
            core::mem::swap(&mut self.images, &mut images);
            images.remove(i);
            proof {
                let after = before.remove(i as int);
                assert(images.deep_view() =~= after);
                assert forall|a: int, b: int| 0 <= a < b < after.len() implies (#[trigger] after[a]).path
                    != (#[trigger] after[b]).path by {
                    let a0 = if a < i { a } else { a + 1 };
                    let b0 = if b < i { b } else { b + 1 };
                    assert(after[a] == before[a0] && after[b] == before[b0]);
                }
            }
            self.images = images;
        }
    }

    /// Exchanges the images at `i` and `i + 1`. The selection stays where it
    /// is, or is dropped where it would point past the end.
    fn exchange_with_next(&mut self, i: usize)
        requires
            i + 1 < old(self)@.images.len(),
        ensures
            final(self)@.images == exchanged(old(self)@.images, i as int, i + 1),
            final(self)@.images == exchanged(old(self)@.images, i + 1, i as int),
            final(self)@.selected == old(self)@.selected,
    {
        proof {
            use_type_invariant(&*self);
        }
        let ghost before = self@.images;
        let mut images: Vec<Image> = Vec::new();
        let selected = self.selected_index;
        self.selected_index = None;
        core::mem::swap(&mut self.images, &mut images);
        assert(images.len() == before.len());
        let image = images.remove(i);
        images.insert(i + 1, image);
        proof {
            let after = exchanged(before, i as int, i + 1);
            assert(images.deep_view() =~= after);
            assert(after =~= exchanged(before, i + 1, i as int));
            assert forall|a: int, b: int| 0 <= a < b < after.len() implies (#[trigger] after[a]).path
                != (#[trigger] after[b]).path by {
                let a0 = if a == i { i + 1 } else if a == i + 1 { i as int } else { a };
                let b0 = if b == i { i + 1 } else if b == i + 1 { i as int } else { b };
                assert(after[a] == before[a0] && after[b] == before[b0]);
                if a0 < b0 {
                    assert(before[a0].path != before[b0].path);
                } else {
                    assert(before[b0].path != before[a0].path);
                }
            }
        }
        self.images = images;
        self.selected_index = selected;
    }
}

} // verus!
