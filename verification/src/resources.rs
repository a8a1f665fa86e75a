//! Resources loaded from disk, kept in groups indexed by their path.

use vstd::prelude::*;
use crate::error::{HellError, HellErrorKind, HellResult};
use crate::text::str_eq;

verus! {

// ----------------------------------------------------------------------------
// resource group
// ----------------------------------------------------------------------------

/// Handle of a resource: its index in its group.
#[derive(Debug, Clone, Copy, PartialEq, Eq, Structural)]
pub struct ResourceHandle {
    pub id: usize,
}

impl From<usize> for ResourceHandle {
    fn from(value: usize) -> (r: ResourceHandle) {
        ResourceHandle { id: value }
    }
}

impl vstd::std_specs::convert::FromSpecImpl<usize> for ResourceHandle {
    open spec fn obeys_from_spec() -> bool {
        true
    }

    open spec fn from_spec(v: usize) -> ResourceHandle {
        ResourceHandle { id: v }
    }
}

impl ResourceHandle {
    /// The largest handle (`MAX`), which names no loaded resource.
    pub fn max() -> (r: ResourceHandle)
        ensures
            r.id == usize::MAX,
    {
        ResourceHandle { id: usize::MAX }
    }
}

/// Model of a `ResourceGroup`: the paths and the resources, index by index.
pub struct ResourceGroupView<T> {
    pub paths: Seq<Seq<char>>,
    pub resources: Seq<T>,
}

/// Resources with the paths they were loaded from; a path occurs once.
pub struct ResourceGroup<T> {
    paths: Vec<String>,
    resources: Vec<T>,
}

pub open spec fn strings_view(v: Seq<String>) -> Seq<Seq<char>> {
    v.map_values(|s: String| s@)
}

impl<T> View for ResourceGroup<T> {
    type V = ResourceGroupView<T>;

    closed spec fn view(&self) -> ResourceGroupView<T> {
        ResourceGroupView { paths: strings_view(self.paths@), resources: self.resources@ }
    }
}

/// No element occurs twice.
pub open spec fn distinct<A>(s: Seq<A>) -> bool {
    forall|i: int, j: int| 0 <= i < j < s.len() ==> s[i] != s[j]
}

impl<T> ResourceGroup<T> {
    /// Each path has its resource, and no path occurs twice.
    pub closed spec fn wf(&self) -> bool {
        &&& self.paths@.len() == self.resources@.len()
        &&& distinct(self@.paths)
    }

    pub fn new() -> (r: ResourceGroup<T>)
        ensures
            r.wf(),
            r@.paths == Seq::<Seq<char>>::empty(),
            r@.resources == Seq::<T>::empty(),
    {
        let r = ResourceGroup { paths: Vec::new(), resources: Vec::new() };
        assert(r@.paths =~= Seq::<Seq<char>>::empty());
        r
    }

    pub fn get_all(&self) -> (r: &[T])
        ensures
            r@ == self@.resources,
    {
        self.resources.as_slice()
    }

    pub fn get_at(&self, idx: usize) -> (r: Option<&T>)
        ensures
            r == (if idx < self@.resources.len() {
                Some(&self@.resources[idx as int])
            } else {
                None
            }),
    {
        if idx < self.resources.len() {
            Some(&self.resources[idx])
        } else {
            None
        }
    }

    /// Position of `path`, if it was added.
    pub fn index_of(&self, path: &str) -> (r: Option<usize>)
        requires
            self.wf(),
        ensures
            match r {
                Some(i) => i < self@.paths.len() && self@.paths[i as int] == path@ && forall|j: int|
                    0 <= j < i ==> self@.paths[j] != path@,
                None => !self@.paths.contains(path@),
            },
    {
        let mut i: usize = 0;
        while i < self.paths.len()
            invariant
                i <= self.paths@.len(),
                forall|j: int| 0 <= j < i ==> self@.paths[j] != path@,
            decreases self.paths@.len() - i,
        {
            proof {
                assert(self@.paths[i as int] == self.paths@[i as int]@);
            }
            if str_eq(self.paths[i].as_str(), path) {
                return Some(i);
            }
            i = i + 1;
        }
        None
    }

    /// The resource loaded from `path`, if any.
    pub fn get(&self, path: &str) -> (r: Option<&T>)
        requires
            self.wf(),
        ensures
            match r {
                Some(t) => exists|i: int|
                    0 <= i < self@.paths.len() && self@.paths[i] == path@ && *t == self@.resources[i] && forall|j: int|
                        0 <= j < i ==> self@.paths[j] != path@,
                None => !self@.paths.contains(path@),
            },
    {
        match self.index_of(path) {
            Some(i) => self.get_at(i),
            None => None,
        }
    }

    pub fn is_empty(&self) -> (r: bool)
        requires
            self.wf(),
        ensures
            r == (self@.paths.len() == 0),
    {
        self.len() == 0
    }

    pub fn len(&self) -> (r: usize)
        requires
            self.wf(),
        ensures
            r == self@.paths.len(),
            r == self@.resources.len(),
    {
        self.paths.len()
    }

    pub fn contains(&self, path: &str) -> (r: bool)
        requires
            self.wf(),
        ensures
            r == self@.paths.contains(path@),
    {
        self.index_of(path).is_some()
    }

    /// Adds `res` loaded from `path`; a path can be added once.
    pub fn add(&mut self, path: String, res: T) -> (r: HellResult<ResourceHandle>)
        requires
            old(self).wf(),
        ensures
            final(self).wf(),
            match r {
                Ok(h) => !old(self)@.paths.contains(path@) && h.id == old(self)@.paths.len() && final(self)@.paths
                    == old(self)@.paths.push(path@) && final(self)@.resources == old(self)@.resources.push(res),
                Err(e) => old(self)@.paths.contains(path@) && e.kind == HellErrorKind::ResourceError && e.msg@
                    == "trying to duplicate resource"@ && final(self)@ == old(self)@,
            },
    {
        if self.contains(path.as_str()) {
            return Err(HellError::from_msg(HellErrorKind::ResourceError, "trying to duplicate resource".to_owned()));
        }
        let ghost old_paths = self@.paths;
        let ghost p = path@;
        self.paths.push(path);
        self.resources.push(res);
        assert(self@.paths =~= old_paths.push(p));
        assert(distinct(self@.paths)) by {
            assert forall|i: int, j: int| 0 <= i < j < self@.paths.len() implies self@.paths[i] != self@.paths[j] by {
                if j == old_paths.len() {
                    assert(old_paths[i] == self@.paths[i]);
                }
            }
        }
        Ok(ResourceHandle::from(self.len() - 1))
    }
}

/// Adding a resource under a new path makes the path find it, and a second
/// add under the same path is refused.
pub proof fn lemma_group_add_then_find<T>(g: ResourceGroupView<T>, path: Seq<char>, res: T)
    requires
        distinct(g.paths),
        g.paths.len() == g.resources.len(),
        !g.paths.contains(path),
    ensures
        distinct(g.paths.push(path)),
        g.paths.push(path)[g.paths.len() as int] == path,
        g.resources.push(res)[g.paths.len() as int] == res,
        forall|i: int| 0 <= i < g.paths.len() ==> #[trigger] g.paths.push(path)[i] != path,
        g.paths.push(path).contains(path),
{
    assert(g.paths.push(path)[g.paths.len() as int] == path);
    assert forall|i: int, j: int| 0 <= i < j < g.paths.push(path).len() implies g.paths.push(path)[i] != g.paths.push(
        path,
    )[j] by {
        if j == g.paths.len() {
            assert(g.paths.contains(g.paths[i]));
        }
    }
    assert forall|i: int| 0 <= i < g.paths.len() implies #[trigger] g.paths.push(path)[i] != path by {
        assert(g.paths.push(path)[i] == g.paths[i]);
        if g.paths[i] == path {
            assert(g.paths.contains(path));
        }
    }
}

} // verus!

verus! {

// ----------------------------------------------------------------------------
// images
// ----------------------------------------------------------------------------

/// Index of the byte that ends up at byte `i` of a `width` x `height` RGBA
/// image when it is flipped upside down: same column and channel, mirrored row.
pub open spec fn flipv_source(width: nat, height: nat, i: int) -> int {
    let pixel = i / 4;
    let channel = i % 4;
    let y = pixel / (width as int);
    let x = pixel % (width as int);
    (((height - 1 - y) * width + x) * 4) + channel
}

/// Index of the byte that ends up at byte `i` when the image is mirrored left
/// to right: same row and channel, mirrored column.
pub open spec fn fliph_source(width: nat, height: nat, i: int) -> int {
    let pixel = i / 4;
    let channel = i % 4;
    let y = pixel / (width as int);
    let x = pixel % (width as int);
    ((y * width + (width - 1 - x)) * 4) + channel
}

/// The pixels of a `width` x `height` RGBA image (four bytes a pixel, rows top
/// to bottom) flipped upside down.
pub open spec fn flipv_pixels(width: nat, height: nat, px: Seq<u8>) -> Seq<u8> {
    Seq::new(px.len(), |i: int| px[flipv_source(width, height, i)])
}

/// The pixels of an RGBA image mirrored left to right.
pub open spec fn fliph_pixels(width: nat, height: nat, px: Seq<u8>) -> Seq<u8> {
    Seq::new(px.len(), |i: int| px[fliph_source(width, height, i)])
}

/// `image::imageops::flip_vertical` on an RGBA image: the output has the input's
/// size and pixel `(x, y)` of the output is pixel `(x, height - 1 - y)` of the
/// input (as the crate's `flip_vertical_in` loop writes it).
#[verifier::external_body]
fn flip_vertical(width: u32, height: u32, pixels: Vec<u8>) -> (r: Vec<u8>)
    requires
        pixels@.len() == width * height * 4,
    ensures
        r@ == flipv_pixels(width as nat, height as nat, pixels@),
{
    let img = image::RgbaImage::from_raw(width, height, pixels).unwrap();
    image::imageops::flip_vertical(&img).into_raw()
}

/// `image::imageops::flip_horizontal` on an RGBA image: pixel `(x, y)` of the
/// output is pixel `(width - 1 - x, y)` of the input.
#[verifier::external_body]
fn flip_horizontal(width: u32, height: u32, pixels: Vec<u8>) -> (r: Vec<u8>)
    requires
        pixels@.len() == width * height * 4,
    ensures
        r@ == fliph_pixels(width as nat, height as nat, pixels@),
{
    let img = image::RgbaImage::from_raw(width, height, pixels).unwrap();
    image::imageops::flip_horizontal(&img).into_raw()
}

/// Name and path of one texture of a material.
#[derive(Debug, Clone)]
pub struct TextureInfo {
    pub id_internal: Option<u64>,
    pub name: String,
    pub path: String,
}

pub struct TextureInfoView {
    pub id_internal: Option<u64>,
    pub name: Seq<char>,
    pub path: Seq<char>,
}

impl View for TextureInfo {
    type V = TextureInfoView;

    open spec fn view(&self) -> TextureInfoView {
        TextureInfoView { id_internal: self.id_internal, name: self.name@, path: self.path@ }
    }
}

impl TextureInfo {
    pub fn new(name: String, path: String) -> (r: TextureInfo)
        ensures
            r@ == (TextureInfoView { id_internal: None, name: name@, path: path@ }),
    {
        TextureInfo { id_internal: None, name, path }
    }
}

/// An RGBA image ready for upload: four bytes a pixel, rows top to bottom.
#[derive(Debug)]
pub struct TextureResource {
    id_internal: Option<u64>,
    width: u32,
    height: u32,
    rgba: Vec<u8>,
}

impl TextureResource {
    pub closed spec fn spec_width(&self) -> u32 {
        self.width
    }

    pub closed spec fn spec_height(&self) -> u32 {
        self.height
    }

    pub closed spec fn pixels(&self) -> Seq<u8> {
        self.rgba@
    }

    /// The texture of a decoded RGBA image, flipped upside down if `flipv`
    /// and then mirrored if `fliph`.
    pub fn from_rgba8(width: u32, height: u32, rgba: Vec<u8>, flipv: bool, fliph: bool) -> (r: TextureResource)
        requires
            rgba@.len() == width * height * 4,
        ensures
            r.spec_width() == width,
            r.spec_height() == height,
            ({
                let v = if flipv {
                    flipv_pixels(width as nat, height as nat, rgba@)
                } else {
                    rgba@
                };
                r.pixels() == if fliph {
                    fliph_pixels(width as nat, height as nat, v)
                } else {
                    v
                }
            }),
    {
        let mut px = rgba;
        if flipv {
            px = flip_vertical(width, height, px);
        }
        if fliph {
            px = flip_horizontal(width, height, px);
        }
        TextureResource { id_internal: None, width, height, rgba: px }
    }

    pub fn width(&self) -> (r: u32)
        ensures
            r == self.spec_width(),
    {
        self.width
    }

    pub fn height(&self) -> (r: u32)
        ensures
            r == self.spec_height(),
    {
        self.height
    }

    /// The image's bytes.
    pub fn img(&self) -> (r: &[u8])
        ensures
            r@ == self.pixels(),
    {
        self.rgba.as_slice()
    }
}

/// An RGBA image loaded for the font renderer, optionally flipped upside down.
#[derive(Debug)]
pub struct ImageResource {
    width: u32,
    height: u32,
    rgba_img: Vec<u8>,
}

impl ImageResource {
    pub closed spec fn pixels(&self) -> Seq<u8> {
        self.rgba_img@
    }

    pub fn from_rgba8(width: u32, height: u32, rgba: Vec<u8>, flipv: bool) -> (r: ImageResource)
        requires
            rgba@.len() == width * height * 4,
        ensures
            r.pixels() == if flipv {
                flipv_pixels(width as nat, height as nat, rgba@)
            } else {
                rgba@
            },
    {
        let px = if flipv {
            flip_vertical(width, height, rgba)
        } else {
            rgba
        };
        ImageResource { width, height, rgba_img: px }
    }

    pub fn get_img(&self) -> (r: &[u8])
        ensures
            r@ == self.pixels(),
    {
        self.rgba_img.as_slice()
    }
}

// ----------------------------------------------------------------------------
// materials
// ----------------------------------------------------------------------------

/// The texture entry of a material file.
#[derive(Debug)]
pub struct MaterialTextureInfo {
    pub path: String,
}

/// The material section of a material file: its name, shader and textures
/// by name.
#[derive(Debug)]
pub struct MaterialInfo {
    pub name: String,
    pub shader: String,
    pub textures: Vec<(String, MaterialTextureInfo)>,
}

/// A material file.
#[derive(Debug)]
pub struct MaterialFile {
    pub material: MaterialInfo,
}

pub struct MaterialResourceView {
    pub name: Seq<char>,
    pub id: u64,
    pub id_internal: Option<u64>,
    pub shader: Seq<char>,
    pub textures: Seq<TextureInfoView>,
}

/// A loaded material: its name, shader and textures.
#[derive(Debug)]
pub struct MaterialResource {
    pub name: String,
    pub id: u64,
    pub id_internal: Option<u64>,
    pub shader: String,
    pub textures: Vec<TextureInfo>,
}

impl View for MaterialResource {
    type V = MaterialResourceView;

    open spec fn view(&self) -> MaterialResourceView {
        MaterialResourceView {
            name: self.name@,
            id: self.id,
            id_internal: self.id_internal,
            shader: self.shader@,
            textures: self.textures@.map_values(|t: TextureInfo| t@),
        }
    }
}

impl MaterialResource {
    pub const MAIN_TEX: &'static str = "main_tex";

    /// The material described by a material file's section: each texture
    /// entry becomes a texture named by its key.
    pub fn from(info: MaterialInfo) -> (r: MaterialResource)
        ensures
            r@.name == info.name@,
            r@.id == 0,
            r@.id_internal == None::<u64>,
            r@.shader == info.shader@,
            r@.textures.len() == info.textures@.len(),
            forall|i: int|
                0 <= i < info.textures@.len() ==> #[trigger] r@.textures[i] == (TextureInfoView {
                    id_internal: None,
                    name: info.textures@[i].0@,
                    path: info.textures@[i].1.path@,
                }),
    {
        let MaterialInfo { name, shader, textures: entries } = info;
        let mut textures: Vec<TextureInfo> = Vec::new();
        let mut i: usize = 0;
        while i < entries.len()
            invariant
                i <= entries@.len(),
                textures@.len() == i,
                forall|k: int|
                    0 <= k < i ==> #[trigger] textures@[k]@ == (TextureInfoView {
                        id_internal: None,
                        name: entries@[k].0@,
                        path: entries@[k].1.path@,
                    }),
            decreases entries@.len() - i,
        {
            let key = entries[i].0.clone();
            let path = entries[i].1.path.clone();
            textures.push(TextureInfo::new(key, path));
            i = i + 1;
        }
        MaterialResource { name, id: 0, id_internal: None, shader, textures }
    }
}

} // verus!

verus! {

// ----------------------------------------------------------------------------
// resource manager
// ----------------------------------------------------------------------------

/// The texture paths of `mats`, material by material, each material's in its
/// own order.
pub open spec fn texture_paths(mats: Seq<MaterialResourceView>) -> Seq<Seq<char>>
    decreases mats.len(),
{
    if mats.len() == 0 {
        Seq::empty()
    } else {
        texture_paths(mats.drop_last()) + mats.last().textures.map_values(|t: TextureInfoView| t.path)
    }
}

/// The texture paths of two lists of materials, one after the other, are
/// those of the first followed by those of the second.
pub proof fn lemma_texture_paths_concat(a: Seq<MaterialResourceView>, b: Seq<MaterialResourceView>)
    ensures
        texture_paths(a + b) == texture_paths(a) + texture_paths(b),
    decreases b.len(),
{
    if b.len() == 0 {
        assert(a + b =~= a);
        assert(texture_paths(a) + Seq::empty() =~= texture_paths(a));
    } else {
        lemma_texture_paths_concat(a, b.drop_last());
        assert((a + b).drop_last() =~= a + b.drop_last());
        assert((a + b).last() == b.last());
        assert(texture_paths(a + b) =~= texture_paths(a) + texture_paths(b));
    }
}

/// One material gives the paths of its textures, in its own order.
pub proof fn lemma_texture_paths_one(m: MaterialResourceView)
    ensures
        texture_paths(seq![m]).len() == m.textures.len(),
        forall|k: int| 0 <= k < m.textures.len() ==> #[trigger] texture_paths(seq![m])[k] == m.textures[k].path,
{
    assert(seq![m].drop_last() =~= Seq::<MaterialResourceView>::empty());
    assert(seq![m].last() == m);
    assert(texture_paths(Seq::<MaterialResourceView>::empty()).len() == 0);
    assert(texture_paths(seq![m]) =~= m.textures.map_values(|t: TextureInfoView| t.path));
}

/// Whether some material of `mats` uses shader `key`.
pub open spec fn uses_shader(mats: Seq<MaterialResourceView>, key: Seq<char>) -> bool {
    exists|i: int| 0 <= i < mats.len() && #[trigger] mats[i].shader == key
}

proof fn lemma_uses_shader_extend(mats: Seq<MaterialResourceView>, i: int)
    requires
        0 <= i < mats.len(),
    ensures
        forall|k: Seq<char>|
            uses_shader(mats.subrange(0, i + 1), k) <==> (uses_shader(mats.subrange(0, i), k) || mats[i].shader
                == k),
{
    let prev = mats.subrange(0, i);
    let next = mats.subrange(0, i + 1);
    assert forall|k: Seq<char>| uses_shader(next, k) <==> (uses_shader(prev, k) || mats[i].shader == k) by {
        if uses_shader(prev, k) {
            let w = choose|q: int| 0 <= q < prev.len() && #[trigger] prev[q].shader == k;
            assert(next[w] == prev[w]);
        }
        if mats[i].shader == k {
            assert(next[i] == mats[i]);
        }
        if uses_shader(next, k) && mats[i].shader != k {
            let w = choose|q: int| 0 <= q < next.len() && #[trigger] next[q].shader == k;
            assert(prev[w] == next[w]);
        }
    }
}

/// The images and materials loaded so far.
pub struct ResourceManager {
    images: ResourceGroup<TextureResource>,
    materials: ResourceGroup<MaterialResource>,
}

impl ResourceManager {
    pub closed spec fn wf(&self) -> bool {
        self.images.wf() && self.materials.wf()
    }

    pub closed spec fn image_paths(&self) -> Seq<Seq<char>> {
        self.images@.paths
    }

    pub closed spec fn images(&self) -> Seq<TextureResource> {
        self.images@.resources
    }

    pub closed spec fn material_paths(&self) -> Seq<Seq<char>> {
        self.materials@.paths
    }

    pub closed spec fn materials(&self) -> Seq<MaterialResourceView> {
        self.materials@.resources.map_values(|m: MaterialResource| m@)
    }

    pub fn new() -> (r: ResourceManager)
        ensures
            r.wf(),
            r.image_paths() == Seq::<Seq<char>>::empty(),
            r.images() == Seq::<TextureResource>::empty(),
            r.material_paths() == Seq::<Seq<char>>::empty(),
            r.materials() == Seq::<MaterialResourceView>::empty(),
    {
        let r = ResourceManager { images: ResourceGroup::new(), materials: ResourceGroup::new() };
        assert(r.materials() =~= Seq::<MaterialResourceView>::empty());
        r
    }

    /// Adds an image loaded from `path`; a path can be added once.
    pub fn add_image(&mut self, path: String, img: TextureResource) -> (r: HellResult<ResourceHandle>)
        requires
            old(self).wf(),
        ensures
            final(self).wf(),
            final(self).material_paths() == old(self).material_paths(),
            final(self).materials() == old(self).materials(),
            match r {
                Ok(h) => !old(self).image_paths().contains(path@) && h.id == old(self).image_paths().len()
                    && final(self).image_paths() == old(self).image_paths().push(path@) && final(self).images()
                    == old(self).images().push(img),
                Err(e) => old(self).image_paths().contains(path@) && e.kind == HellErrorKind::ResourceError && e.msg@
                    == "trying to duplicate resource"@ && final(self).image_paths() == old(self).image_paths()
                    && final(self).images() == old(self).images(),
            },
    {
        self.images.add(path, img)
    }

    pub fn get_all_images(&self) -> (r: &[TextureResource])
        ensures
            r@ == self.images(),
    {
        self.images.get_all()
    }

    /// The handle of the material loaded from `path`, if it was loaded.
    pub fn find_material(&self, path: &str) -> (r: Option<ResourceHandle>)
        requires
            self.wf(),
        ensures
            match r {
                Some(h) => h.id < self.material_paths().len() && self.material_paths()[h.id as int] == path@
                    && forall|j: int| 0 <= j < h.id ==> self.material_paths()[j] != path@,
                None => !self.material_paths().contains(path@),
            },
    {
        match self.materials.index_of(path) {
            Some(idx) => Some(ResourceHandle::from(idx)),
            None => None,
        }
    }

    /// Adds a material loaded from `path`; a path can be added once.
    pub fn add_material(&mut self, path: &str, mat: MaterialResource) -> (r: HellResult<ResourceHandle>)
        requires
            old(self).wf(),
        ensures
            final(self).wf(),
            final(self).image_paths() == old(self).image_paths(),
            final(self).images() == old(self).images(),
            match r {
                Ok(h) => !old(self).material_paths().contains(path@) && h.id == old(self).material_paths().len()
                    && final(self).material_paths() == old(self).material_paths().push(path@) && final(self).materials()
                    == old(self).materials().push(mat@),
                Err(e) => old(self).material_paths().contains(path@) && e.kind == HellErrorKind::ResourceError
                    && e.msg@ == "trying to duplicate resource"@ && final(self).material_paths()
                    == old(self).material_paths() && final(self).materials() == old(self).materials(),
            },
    {
        let ghost old_res = self.materials@.resources;
        let ghost mv = mat@;
        let r = self.materials.add(path.to_owned(), mat);
        proof {
            if r is Ok {
                assert(self.materials() =~= old_res.map_values(|m: MaterialResource| m@).push(mv));
            }
        }
        r
    }

    /// Records `mat`, read from `path`, unless a material from `path` is
    /// already loaded; either way the handle of the material from `path`.
    pub fn load_material(&mut self, path: &str, mat: MaterialResource) -> (r: HellResult<ResourceHandle>)
        requires
            old(self).wf(),
        ensures
            final(self).wf(),
            final(self).image_paths() == old(self).image_paths(),
            final(self).images() == old(self).images(),
            r is Ok,
            old(self).material_paths().contains(path@) ==> (r matches Ok(h) && h.id < old(self).material_paths().len()
                && old(self).material_paths()[h.id as int] == path@ && final(self).material_paths()
                == old(self).material_paths() && final(self).materials() == old(self).materials()),
            !old(self).material_paths().contains(path@) ==> (r matches Ok(h) && h.id == old(self).material_paths().len()
                && final(self).material_paths() == old(self).material_paths().push(path@) && final(self).materials()
                == old(self).materials().push(mat@)),
    {
        if let Some(h) = self.find_material(path) {
            return Ok(h);
        }
        self.add_material(path, mat)
    }

    /// Texture paths of all materials, in material order: the images
    /// `load_used_textures` loads.
    pub fn used_texture_paths(&self) -> (r: Vec<String>)
        requires
            self.wf(),
        ensures
            strings_view(r@) == texture_paths(self.materials()),
    {
        let ghost mats = self.materials();
        let mats_exec = self.materials.get_all();
        let mut out: Vec<String> = Vec::new();
        let mut i: usize = 0;
        while i < mats_exec.len()
            invariant
                i <= mats_exec@.len(),
                mats == mats_exec@.map_values(|m: MaterialResource| m@),
                strings_view(out@) == texture_paths(mats.subrange(0, i as int)),
            decreases mats_exec@.len() - i,
        {
            let m = &mats_exec[i];
            let ghost before = out@;
            let mut t: usize = 0;
            while t < m.textures.len()
                invariant
                    t <= m.textures@.len(),
                    out@.len() == before.len() + t,
                    strings_view(out@) == strings_view(before) + m@.textures.map_values(|x: TextureInfoView| x.path).subrange(0, t as int),
                decreases m.textures@.len() - t,
            {
                let p = m.textures[t].path.clone();
                let ghost prev = out@;
                out.push(p);
                proof {
                    assert(m@.textures[t as int] == m.textures@[t as int]@);
                    assert(strings_view(out@) =~= strings_view(prev).push(out@[out@.len() - 1]@));
                    assert(strings_view(out@) =~= strings_view(before) + m@.textures.map_values(|x: TextureInfoView| x.path).subrange(0, t + 1));
                }
                t = t + 1;
            }
            proof {
                assert(m@.textures.map_values(|x: TextureInfoView| x.path).subrange(0, t as int) =~= m@.textures.map_values(|x: TextureInfoView| x.path));
                let s1 = mats.subrange(0, i + 1);
                assert(s1.drop_last() =~= mats.subrange(0, i as int));
                assert(s1.last() == m@);
            }
            i = i + 1;
        }
        assert(mats.subrange(0, i as int) =~= mats);
        out
    }

    /// The shaders the loaded materials use, each once, in order of first use.
    pub fn unique_shader_keys(&self) -> (r: Vec<String>)
        requires
            self.wf(),
        ensures
            distinct(strings_view(r@)),
            forall|k: Seq<char>| strings_view(r@).contains(k) <==> uses_shader(self.materials(), k),
    {
        let ghost mats = self.materials();
        let mats_exec = self.materials.get_all();
        let mut keys: Vec<String> = Vec::new();
        let mut i: usize = 0;
        while i < mats_exec.len()
            invariant
                i <= mats_exec@.len(),
                mats == mats_exec@.map_values(|m: MaterialResource| m@),
                distinct(strings_view(keys@)),
                forall|k: Seq<char>|
                    strings_view(keys@).contains(k) <==> uses_shader(mats.subrange(0, i as int), k),
            decreases mats_exec@.len() - i,
        {
            let shader = &mats_exec[i].shader;
            let ghost sk = shader@;
            assert(mats[i as int].shader == sk);
            let mut found = false;
            let mut j: usize = 0;
            while j < keys.len()
                invariant
                    j <= keys@.len(),
                    shader@ == sk,
                    found == (exists|q: int| 0 <= q < j && #[trigger] strings_view(keys@)[q] == sk),
                decreases keys@.len() - j,
            {
                proof {
                    assert(strings_view(keys@)[j as int] == keys@[j as int]@);
                }
                if str_eq(keys[j].as_str(), shader.as_str()) {
                    found = true;
                }
                proof {
                    if !found {
                        assert forall|q: int| 0 <= q < j + 1 implies #[trigger] strings_view(keys@)[q] != sk by {}
                    }
                }
                j = j + 1;
            }
            let ghost old_keys = strings_view(keys@);
            proof {
                if found {
                    let q = choose|q: int| 0 <= q < j && #[trigger] strings_view(keys@)[q] == sk;
                    assert(old_keys.contains(sk));
                } else {
                    assert(!old_keys.contains(sk));
                }
            }
            if !found {
                keys.push(shader.clone());
                proof {
                    assert(strings_view(keys@) =~= old_keys.push(sk));
                    assert forall|a: int, b: int| 0 <= a < b < strings_view(keys@).len() implies strings_view(keys@)[a]
                        != strings_view(keys@)[b] by {
                        if b == old_keys.len() {
                            assert(strings_view(keys@)[a] == old_keys[a]);
                            assert(old_keys.contains(old_keys[a]));
                        }
                    }
                }
            }
            proof {
                lemma_uses_shader_extend(mats, i as int);
                assert forall|k: Seq<char>| strings_view(keys@).contains(k) <==> uses_shader(mats.subrange(0, i + 1), k) by {
                    if !found {
                        assert(strings_view(keys@).contains(k) <==> (old_keys.contains(k) || k == sk)) by {
                            if k == sk {
                                assert(strings_view(keys@)[old_keys.len() as int] == sk);
                            }
                            if strings_view(keys@).contains(k) && k != sk {
                                let q = choose|q: int| 0 <= q < strings_view(keys@).len() && strings_view(keys@)[q] == k;
                                assert(q < old_keys.len());
                                assert(old_keys[q] == k);
                            }
                            if old_keys.contains(k) {
                                let q = choose|q: int| 0 <= q < old_keys.len() && old_keys[q] == k;
                                assert(strings_view(keys@)[q] == k);
                            }
                        }
                    }
                }
            }
            i = i + 1;
        }
        assert(mats.subrange(0, i as int) =~= mats);
        keys
    }

    /// The material at `idx`, if there is one.
    pub fn material_at(&self, idx: usize) -> (r: Option<&MaterialResource>)
        ensures
            match r {
                Some(m) => idx < self.materials().len() && m@ == self.materials()[idx as int],
                None => idx >= self.materials().len(),
            },
    {
        self.materials.get_at(idx)
    }
}

} // verus!

verus! {

/// No path occurs twice in a group: `add` refuses a path it already holds.
pub proof fn lemma_group_paths_distinct<T>(g: &ResourceGroup<T>)
    requires
        g.wf(),
    ensures
        distinct(g@.paths),
        g@.paths.len() == g@.resources.len(),
{
}

/// No image path and no material path occurs twice in a manager.
pub proof fn lemma_manager_paths_distinct(rm: &ResourceManager)
    requires
        rm.wf(),
    ensures
        distinct(rm.image_paths()),
        distinct(rm.material_paths()),
        rm.image_paths().len() == rm.images().len(),
        rm.material_paths().len() == rm.materials().len(),
{
}

} // verus!
