//! The entry-point contract, the handle of a loaded module, and the loading of
//! one module from a path.

use std::ops::Deref;
use vstd::prelude::*;

verus! {

/// `libloading::Library`: the opened image of a dynamic library. A value owns
/// the mapping, and dropping it unmaps the image. Nothing inside it is read
/// here.
#[verifier::external_type_specification]
#[verifier::external_body]
pub struct ExLibrary(libloading::Library);

/// `libloading::Error`: the reason why an image could not be opened. It is
/// only told apart from success.
#[verifier::external_type_specification]
#[verifier::external_body]
pub struct ExLibraryError(libloading::Error);

/// `core::mem::forget` takes ownership of a value and never runs its destructor.
/// It returns nothing, so nothing is claimed of it.
pub assume_specification<T>[ core::mem::forget::<T> ](t: T);

/// `String::push_str` appends the given text to the end of the string.
pub assume_specification[ String::push_str ](text: &mut String, tail: &str)
    ensures
        final(text)@ == old(text)@ + tail@,
;

/// Name of the symbol that every module exports and that the loader resolves:
/// the bytes of `_create_rdyn_plugin`.
pub const CREATE_RDYN_SYM_NAME: [u8; 19] = [
    95, 99, 114, 101, 97, 116, 101, 95, 114, 100, 121, 110, 95, 112, 108, 117, 103, 105, 110,
];

/// Whether `c` may stand in an identifier: an ASCII letter, a digit or `_`.
pub open spec fn is_ident_char(c: char) -> bool {
    ('a' <= c && c <= 'z') || ('A' <= c && c <= 'Z') || ('0' <= c && c <= '9') || c == '_'
}

/// Whether `text` can name an exported function: not empty, made of identifier
/// characters, and not starting with a digit.
pub open spec fn is_export_name(text: Seq<char>) -> bool {
    &&& text.len() > 0
    &&& !('0' <= text[0] && text[0] <= '9')
    &&& forall|i: int| 0 <= i < text.len() ==> is_ident_char(#[trigger] text[i])
}

/// The symbol name as text, for whoever generates the export of a module.
///
/// The text has the bytes of [`CREATE_RDYN_SYM_NAME`], one character for each,
/// and is a name that a function can carry.
pub fn create_rdyn_sym_str() -> (name: &'static str)
    ensures
        name@.len() == CREATE_RDYN_SYM_NAME@.len(),
        forall|i: int| 0 <= i < name@.len() ==> name@[i] as int == CREATE_RDYN_SYM_NAME@[i] as int,
        is_export_name(name@),
{
    proof {
        reveal_strlit("_create_rdyn_plugin");
    }
    "_create_rdyn_plugin"
}

/// A plugin object together with the library image that it was loaded from.
///
/// The code and the data of the object lie inside the image, so the image has
/// to stay mapped for as long as the object is used. The handle owns both. The
/// object is dropped before the image is unmapped, and no operation hands the
/// object out while letting go of an image that could still be unmapped.
///
/// A handle is *attached* while it owns the image: dropping it then unmaps the
/// image. Once [`forget_library`](RustDynPlugin::forget_library) has run it is
/// *detached*: the image stays mapped until the process ends.
pub struct RustDynPlugin<P> {
    /// The plugin itself. It stands first, so that it is dropped first.
    plugin: P,
    /// The library that the plugin was loaded from; `None` once detached.
    library: Option<libloading::Library>,
}

impl<P> RustDynPlugin<P> {
    /// The plugin object that the handle wraps.
    pub closed spec fn object(self) -> P {
        self.plugin
    }

    /// The image that the handle owns, `None` for a detached handle.
    pub closed spec fn image(self) -> Option<libloading::Library> {
        self.library
    }

    /// Whether dropping the handle unmaps the image.
    pub open spec fn is_attached(self) -> bool {
        self.image() is Some
    }

    /// What `bundle` returns: a handle exactly when an object was created, and
    /// then the attached handle of `library` and that object.
    pub open spec fn bundles(
        library: libloading::Library,
        created: Option<P>,
        loaded: Option<Self>,
    ) -> bool {
        match created {
            Some(plugin) => loaded matches Some(handle) && handle.object() == plugin
                && handle.image() == Some(library),
            None => loaded is None,
        }
    }

    /// Joins an opened image with what its entry point produced.
    ///
    /// With an object, the result is the attached handle of both. Without one,
    /// there is no handle, and the image is dropped here, which unmaps it.
    pub fn bundle(library: libloading::Library, created: Option<P>) -> (loaded: Option<Self>)
        ensures
            Self::bundles(library, created, loaded),
    {
        match created {
            Some(plugin) => Some(RustDynPlugin { plugin, library: Some(library) }),
            None => None,
        }
    }

    /// Loads a plugin from the library at `path`; the same as
    /// [`load_rdyn_plugin`].
    #[inline]
    pub fn load_from<F>(path: &str, create: F) -> (loaded: Option<Self>) where
        F: FnOnce(&libloading::Library, &[u8]) -> Option<P>,

        requires
            forall|library: &libloading::Library, symbol: &[u8]|
                symbol@ == CREATE_RDYN_SYM_NAME@ ==> call_requires(create, (library, symbol)),
        ensures
            loaded matches Some(handle) ==> created_by(create, handle),
    {
        load_rdyn_plugin(path, create)
    }

    /// Detaches the handle: the image is never unmapped, whatever becomes of
    /// the handle. The object is untouched.
    ///
    /// On a detached handle this changes nothing, so calling it twice is the
    /// same as calling it once. It cannot be undone.
    #[inline]
    pub fn forget_library(&mut self)
        ensures
            final(self).object() == old(self).object(),
            final(self).image() is None,
            !old(self).is_attached() ==> *final(self) == *old(self),
    {
        match self.library.take() {
            Some(library) => {
                core::mem::forget(library);
            },
            None => {},
        }
    }

    /// Gives up the handle and keeps the object. The handle is detached first,
    /// so the image outlives the object.
    pub fn into_plugin(self) -> (plugin: P)
        ensures
            plugin == self.object(),
    {
        let mut handle = self;
        handle.forget_library();
        handle.plugin
    }

    /// Renders the handle for diagnostics: the identity of the image, as the
    /// image prints itself, and `name`, the name that the object reports. A
    /// detached handle holds no image and shows `detached` in its place.
    /// Nothing inside the image is shown.
    pub fn debug_string(&self, name: &str) -> (text: String)
        ensures
            exists|image: Seq<char>| text@ == debug_text(image, name@),
            !self.is_attached() ==> text@ == debug_text("detached"@, name@),
    {
        match &self.library {
            Some(library) => {
                let image = image_text(library);
                debug_with(image.as_str(), name)
            },
            None => debug_with("detached", name),
        }
    }

    /// The object, for changing it in place. The image stays as it is.
    pub fn deref_mut(&mut self) -> (plugin: &mut P)
        ensures
            *plugin == old(self).object(),
            final(self).object() == *final(plugin),
            final(self).image() == old(self).image(),
    {
        &mut self.plugin
    }
}

impl<P> Deref for RustDynPlugin<P> {
    type Target = P;

    /// The handle stands for its object: this is the object itself.
    fn deref(&self) -> (plugin: &P)
        ensures
            *plugin == self.object(),
    {
        &self.plugin
    }
}

/// Whether `handle` is what loading with `create` can give: an attached handle
/// whose object `create` returned when it was handed the handle's image and
/// the symbol name.
pub open spec fn created_by<P, F>(create: F, handle: RustDynPlugin<P>) -> bool where
    F: FnOnce(&libloading::Library, &[u8]) -> Option<P>,
 {
    &&& handle.image() is Some
    &&& exists|symbol: &[u8]|
        symbol@ == CREATE_RDYN_SYM_NAME@ && #[trigger] call_ensures(
            create,
            (&handle.image()->0, symbol),
            Some(handle.object()),
        )
}

/// What `{:?}` prints for a piece of text: the text between double quotes, with
/// the characters escaped that a string literal would need escaped.
pub uninterp spec fn debug_quoted(text: Seq<char>) -> Seq<char>;

/// Formats `text` with `<str as Debug>::fmt`. The result depends on the text
/// alone and is given the name [`debug_quoted`].
#[verifier::external_body]
fn quote_text(text: &str) -> (quoted: String)
    ensures
        quoted@ == debug_quoted(text@),
{
    format!("{:?}", text)
}

/// Formats the image with `<libloading::Library as Debug>::fmt`, which prints
/// the address of the platform's handle. The address differs from run to run,
/// so nothing is claimed of the text.
#[verifier::external_body]
fn image_text(library: &libloading::Library) -> (text: String) {
    format!("{:?}", library)
}

/// The rendering of a handle whose image prints as `image` and whose object
/// reports the name `name`.
pub open spec fn debug_text(image: Seq<char>, name: Seq<char>) -> Seq<char> {
    "RustDynPlugin { library: "@ + image + ", plugin: "@ + debug_quoted(name) + " }"@
}

/// Renders a handle for diagnostics from the text of its image and the name of
/// its object.
pub fn debug_with(image: &str, name: &str) -> (text: String)
    ensures
        text@ == debug_text(image@, name@),
{
    let mut text = "RustDynPlugin { library: ".to_owned();
    text.push_str(image);
    text.push_str(", plugin: ");
    let quoted = quote_text(name);
    text.push_str(quoted.as_str());
    text.push_str(" }");
    text
}

/// Opens the library image at `path` with `libloading::Library::new`, which
/// maps the image and runs its initialisers. Whether that succeeds depends on
/// the file system and the platform's loader, so nothing is claimed of the
/// result.
#[verifier::external_body]
fn open_library(path: &str) -> (opened: Result<libloading::Library, libloading::Error>) {
    libloading::Library::new(path)
}

/// What is left of loading a module once the attempt to open its image is
/// over.
///
/// Without an image there is no handle, and `create` is not called. With one,
/// `create` is called once, with the image and [`CREATE_RDYN_SYM_NAME`], to
/// resolve the entry point and call it, and the result is that of
/// [`bundle`](RustDynPlugin::bundle) on what it returns: a handle of both if
/// it gives an object, and otherwise none, with the image unmapped again.
pub fn load_opened<P, F>(opened: Option<libloading::Library>, create: F) -> (loaded: Option<
    RustDynPlugin<P>,
>) where F: FnOnce(&libloading::Library, &[u8]) -> Option<P>
    requires
        forall|library: &libloading::Library, symbol: &[u8]|
            symbol@ == CREATE_RDYN_SYM_NAME@ ==> call_requires(create, (library, symbol)),
    ensures
        opened is None ==> loaded is None,
        opened matches Some(library) ==> exists|symbol: &[u8], created: Option<P>|
            symbol@ == CREATE_RDYN_SYM_NAME@ && #[trigger] call_ensures(
                create,
                (&library, symbol),
                created,
            ) && RustDynPlugin::bundles(library, created, loaded),
        loaded matches Some(handle) ==> created_by(create, handle),
{
    match opened {
        None => None,
        Some(library) => {
            let created = create(&library, CREATE_RDYN_SYM_NAME.as_slice());
            RustDynPlugin::bundle(library, created)
        },
    }
}

/// Loads a plugin from the dynamic library at `path`.
///
/// The image is opened; if that fails the result is `None`. Then `create` is
/// called with the image and [`CREATE_RDYN_SYM_NAME`]. It has to look the
/// symbol up and call it, and to answer `None` if the image has no such
/// symbol. Its answer decides as in [`load_opened`].
///
/// Calling a symbol whose signature is not the declared one is undefined
/// behaviour. That is why the call is the caller's.
#[inline]
pub fn load_rdyn_plugin<P, F>(path: &str, create: F) -> (loaded: Option<RustDynPlugin<P>>) where
    F: FnOnce(&libloading::Library, &[u8]) -> Option<P>,

    requires
        forall|library: &libloading::Library, symbol: &[u8]|
            symbol@ == CREATE_RDYN_SYM_NAME@ ==> call_requires(create, (library, symbol)),
    ensures
        loaded matches Some(handle) ==> created_by(create, handle),
{
    let opened = match open_library(path) {
        Ok(library) => Some(library),
        Err(_) => None,
    };
    load_opened(opened, create)
}

} // verus!
