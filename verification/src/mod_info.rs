//! Module descriptors: the identity, version and dependencies that every
//! module states about itself. A module hands its descriptor over as a raw
//! record of byte strings; the loader reads it into an owned form at once.

use vstd::prelude::*;
use vstd::string::{StrSliceExecFns, StringSliceAdditionalSpecFns};
use vstd::utf8::{decode_utf8, encode_utf8, encode_utf8_decode_utf8, encode_utf8_valid_utf8, valid_utf8};

verus! {

/// A dependency as plain values.
pub ghost struct DependencyView {
    pub name: Seq<char>,
    pub version: Option<Seq<char>>,
    pub optional: bool,
}

/// A descriptor as plain values.
pub ghost struct ModInfoView {
    pub name: Seq<char>,
    pub version: Seq<char>,
    pub display_name: Option<Seq<char>>,
    pub description: Option<Seq<char>>,
    pub homepage_url: Option<Seq<char>>,
    pub source_url: Option<Seq<char>>,
    pub issue_tracker_url: Option<Seq<char>>,
    pub authors: Seq<Seq<char>>,
    pub dependencies: Seq<DependencyView>,
}

/// The characters of an optional text.
pub open spec fn text_view(text: Option<String>) -> Option<Seq<char>> {
    match text {
        Some(t) => Some(t@),
        None => None,
    }
}

/// The characters of each text of a list.
pub open spec fn texts_view(texts: Seq<String>) -> Seq<Seq<char>> {
    texts.map_values(|t: String| t@)
}

/// Whether the text can be handed over as a NUL-terminated string: its
/// encoding holds no NUL byte.
pub open spec fn nul_free(text: Seq<char>) -> bool {
    !encode_utf8(text).contains(0u8)
}

/// Whether the bytes, where there are any, are the encoding of the text, and
/// are absent where the text is.
pub open spec fn encodes_optional(bytes: Option<Vec<u8>>, text: Option<Seq<char>>) -> bool {
    match text {
        Some(t) => bytes is Some && bytes->0@ == encode_utf8(t),
        None => bytes is None,
    }
}

/// Whether the optional bytes, where present, can be read as text.
pub open spec fn readable_optional(bytes: Option<Vec<u8>>) -> bool {
    bytes matches Some(b) ==> valid_utf8(b@)
}

/// The text that optional bytes hold.
pub open spec fn decoded_optional(bytes: Option<Vec<u8>>) -> Option<Seq<char>> {
    match bytes {
        Some(b) => Some(decode_utf8(b@)),
        None => None,
    }
}

/// A module descriptor whose strings and lists are owned by the loader.
#[derive(Debug, Clone, PartialEq, Eq)]
pub struct SafeCauldronModInfo {
    /// Name of the module, matched against dependency names.
    pub name: String,
    /// Version of the module as text.
    pub version: String,
    /// Human-readable name.
    pub display_name: Option<String>,
    /// Description of the module.
    pub description: Option<String>,
    /// Link to the homepage.
    pub homepage_url: Option<String>,
    /// Link to the source code.
    pub source_url: Option<String>,
    /// Link to the issue tracker.
    pub issue_tracker_url: Option<String>,
    /// Authors, in the order given.
    pub authors: Vec<String>,
    /// Dependencies, in the order given.
    pub dependencies: Vec<SafeCauldronModDependency>,
}

/// One dependency of a module.
#[derive(Debug, Clone, PartialEq, Eq)]
pub struct SafeCauldronModDependency {
    /// Name of the module depended on.
    pub name: String,
    /// Version requirement as text; any version where absent.
    pub version: Option<String>,
    /// An optional dependency may be absent.
    pub optional: bool,
}

impl View for SafeCauldronModDependency {
    type V = DependencyView;

    open spec fn view(&self) -> DependencyView {
        DependencyView {
            name: self.name@,
            version: text_view(self.version),
            optional: self.optional,
        }
    }
}

impl View for SafeCauldronModInfo {
    type V = ModInfoView;

    open spec fn view(&self) -> ModInfoView {
        ModInfoView {
            name: self.name@,
            version: self.version@,
            display_name: text_view(self.display_name),
            description: text_view(self.description),
            homepage_url: text_view(self.homepage_url),
            source_url: text_view(self.source_url),
            issue_tracker_url: text_view(self.issue_tracker_url),
            authors: texts_view(self.authors@),
            dependencies: self.dependencies@.map_values(|d: SafeCauldronModDependency| d@),
        }
    }
}

/// A dependency in raw form: each string as the bytes that stand before its
/// terminator, an absent string for a null pointer.
#[derive(Debug, Clone)]
pub struct CauldronModDependency {
    /// Name of the module depended on. Required.
    pub name: Vec<u8>,
    /// Version requirement. Optional.
    pub version: Option<Vec<u8>>,
    /// An optional dependency may be absent.
    pub optional: bool,
}

/// A descriptor in raw form: each string as the bytes that stand before its
/// terminator, an absent string or array for a null pointer, and each array
/// with its length beside it.
#[derive(Debug, Clone)]
pub struct CauldronModInfo {
    /// Name of the module. Required.
    pub name: Vec<u8>,
    /// Version of the module. Required.
    pub version: Vec<u8>,
    /// Human-readable name. Optional.
    pub display_name: Option<Vec<u8>>,
    /// Description. Optional.
    pub description: Option<Vec<u8>>,
    /// Link to the homepage. Optional.
    pub homepage_url: Option<Vec<u8>>,
    /// Link to the source code. Optional.
    pub source_url: Option<Vec<u8>>,
    /// Link to the issue tracker. Optional.
    pub issue_tracker_url: Option<Vec<u8>>,
    /// Number of authors to read from `authors`.
    pub authors_len: u32,
    /// Authors. Optional.
    pub authors: Option<Vec<Vec<u8>>>,
    /// Number of dependencies to read from `depends`.
    pub depends_len: u32,
    /// Dependencies. Optional.
    pub depends: Option<Vec<CauldronModDependency>>,
}

impl CauldronModDependency {
    /// Whether the record can be read: its strings are UTF-8.
    pub open spec fn readable(&self) -> bool {
        valid_utf8(self.name@) && readable_optional(self.version)
    }

    /// The dependency that the record describes.
    pub open spec fn described(&self) -> DependencyView {
        DependencyView {
            name: decode_utf8(self.name@),
            version: decoded_optional(self.version),
            optional: self.optional,
        }
    }

    /// Whether the record is the raw form of `dependency`.
    pub open spec fn encodes(&self, dependency: DependencyView) -> bool {
        &&& self.name@ == encode_utf8(dependency.name)
        &&& encodes_optional(self.version, dependency.version)
        &&& self.optional == dependency.optional
    }

    /// The raw form of a dependency on `name`.
    pub fn new(name: &str, version: Option<&str>, optional: bool) -> (dependency: Self)
        requires
            nul_free(name@),
            version matches Some(v) ==> nul_free(v@),
        ensures
            dependency.encodes(
                DependencyView {
                    name: name@,
                    version: match version {
                        Some(v) => Some(v@),
                        None => None,
                    },
                    optional,
                },
            ),
    {
        CauldronModDependency {
            name: name.as_bytes_vec(),
            version: match version {
                None => None,
                Some(v) => Some(v.as_bytes_vec()),
            },
            optional,
        }
    }
}

impl CauldronModInfo {
    /// How many authors are read from the record.
    pub open spec fn authors_read(&self) -> int {
        if self.authors is Some {
            self.authors_len as int
        } else {
            0
        }
    }

    /// How many dependencies are read from the record.
    pub open spec fn depends_read(&self) -> int {
        if self.depends is Some {
            self.depends_len as int
        } else {
            0
        }
    }

    /// Whether the record can be read: its strings are UTF-8, and its arrays
    /// hold as many entries as it says are to be read.
    pub open spec fn readable(&self) -> bool {
        &&& valid_utf8(self.name@)
        &&& valid_utf8(self.version@)
        &&& readable_optional(self.display_name)
        &&& readable_optional(self.description)
        &&& readable_optional(self.homepage_url)
        &&& readable_optional(self.source_url)
        &&& readable_optional(self.issue_tracker_url)
        &&& self.authors matches Some(authors) ==> {
            &&& self.authors_len <= authors@.len()
            &&& forall|i: int| 0 <= i < self.authors_len ==> valid_utf8((#[trigger] authors@[i])@)
        }
        &&& self.depends matches Some(depends) ==> {
            &&& self.depends_len <= depends@.len()
            &&& forall|i: int| 0 <= i < self.depends_len ==> (#[trigger] depends@[i]).readable()
        }
    }

    /// The descriptor that the record describes: every string decoded, and
    /// of each array as many entries as the record says, in their order.
    pub open spec fn described(&self) -> ModInfoView {
        ModInfoView {
            name: decode_utf8(self.name@),
            version: decode_utf8(self.version@),
            display_name: decoded_optional(self.display_name),
            description: decoded_optional(self.description),
            homepage_url: decoded_optional(self.homepage_url),
            source_url: decoded_optional(self.source_url),
            issue_tracker_url: decoded_optional(self.issue_tracker_url),
            authors: Seq::new(
                self.authors_read() as nat,
                |i: int| decode_utf8(self.authors->0@[i]@),
            ),
            dependencies: Seq::new(
                self.depends_read() as nat,
                |i: int| self.depends->0@[i].described(),
            ),
        }
    }

    /// Starts a descriptor with the two required fields.
    pub fn builder(name: &str, version: &str) -> (builder: CauldronModInfoBuilder)
        ensures
            builder.name@ == name@,
            builder.version@ == version@,
            builder.display_name is None,
            builder.description is None,
            builder.homepage_url is None,
            builder.source_url is None,
            builder.issue_tracker_url is None,
            builder.authors is None,
            builder.depends is None,
    {
        CauldronModInfoBuilder {
            name: name.to_owned(),
            version: version.to_owned(),
            display_name: None,
            description: None,
            homepage_url: None,
            source_url: None,
            issue_tracker_url: None,
            authors: None,
            depends: None,
        }
    }
}

/// Composes a descriptor field by field.
pub struct CauldronModInfoBuilder {
    pub name: String,
    pub version: String,
    pub display_name: Option<String>,
    pub description: Option<String>,
    pub homepage_url: Option<String>,
    pub source_url: Option<String>,
    pub issue_tracker_url: Option<String>,
    pub authors: Option<Vec<String>>,
    pub depends: Option<Vec<CauldronModDependency>>,
}

fn encode_optional(text: &Option<String>) -> (bytes: Option<Vec<u8>>)
    ensures
        encodes_optional(bytes, text_view(*text)),
{
    match text {
        None => None,
        Some(t) => Some(t.as_str().as_bytes_vec()),
    }
}

impl CauldronModInfoBuilder {
    /// Whether the builder can be turned into a raw record: no string holds
    /// a NUL byte, and each list is short enough for its length field.
    pub open spec fn buildable(&self) -> bool {
        &&& nul_free(self.name@)
        &&& nul_free(self.version@)
        &&& self.display_name matches Some(t) ==> nul_free(t@)
        &&& self.description matches Some(t) ==> nul_free(t@)
        &&& self.homepage_url matches Some(t) ==> nul_free(t@)
        &&& self.source_url matches Some(t) ==> nul_free(t@)
        &&& self.issue_tracker_url matches Some(t) ==> nul_free(t@)
        &&& self.authors matches Some(authors) ==> {
            &&& authors@.len() <= u32::MAX
            &&& forall|i: int| 0 <= i < authors@.len() ==> nul_free((#[trigger] authors@[i])@)
        }
        &&& self.depends matches Some(depends) ==> depends@.len() <= u32::MAX
    }

    /// Whether `raw` is the record that the builder builds.
    pub open spec fn builds(&self, raw: CauldronModInfo) -> bool {
        &&& raw.name@ == encode_utf8(self.name@)
        &&& raw.version@ == encode_utf8(self.version@)
        &&& encodes_optional(raw.display_name, text_view(self.display_name))
        &&& encodes_optional(raw.description, text_view(self.description))
        &&& encodes_optional(raw.homepage_url, text_view(self.homepage_url))
        &&& encodes_optional(raw.source_url, text_view(self.source_url))
        &&& encodes_optional(raw.issue_tracker_url, text_view(self.issue_tracker_url))
        &&& match self.authors {
            None => raw.authors is None && raw.authors_len == 0,
            Some(authors) => {
                &&& raw.authors is Some
                &&& raw.authors_len == authors@.len()
                &&& raw.authors->0@.len() == authors@.len()
                &&& forall|i: int|
                    0 <= i < authors@.len() ==> (#[trigger] raw.authors->0@[i])@ == encode_utf8(
                        authors@[i]@,
                    )
            },
        }
        &&& match self.depends {
            None => raw.depends is None && raw.depends_len == 0,
            Some(depends) => raw.depends == Some(depends) && raw.depends_len == depends@.len(),
        }
    }

    /// Sets the human-readable name.
    pub fn display_name(self, display_name: &str) -> (builder: Self)
        ensures
            builder.display_name is Some,
            builder.display_name->0@ == display_name@,
            builder == (CauldronModInfoBuilder { display_name: builder.display_name, ..self }),
    {
        let mut builder = self;
        builder.display_name = Some(display_name.to_owned());
        builder
    }

    /// Sets the description.
    pub fn description(self, description: &str) -> (builder: Self)
        ensures
            builder.description is Some,
            builder.description->0@ == description@,
            builder == (CauldronModInfoBuilder { description: builder.description, ..self }),
    {
        let mut builder = self;
        builder.description = Some(description.to_owned());
        builder
    }

    /// Sets the link to the homepage.
    pub fn homepage_url(self, homepage_url: &str) -> (builder: Self)
        ensures
            builder.homepage_url is Some,
            builder.homepage_url->0@ == homepage_url@,
            builder == (CauldronModInfoBuilder { homepage_url: builder.homepage_url, ..self }),
    {
        let mut builder = self;
        builder.homepage_url = Some(homepage_url.to_owned());
        builder
    }

    /// Sets the link to the source code.
    pub fn source_url(self, source_url: &str) -> (builder: Self)
        ensures
            builder.source_url is Some,
            builder.source_url->0@ == source_url@,
            builder == (CauldronModInfoBuilder { source_url: builder.source_url, ..self }),
    {
        let mut builder = self;
        builder.source_url = Some(source_url.to_owned());
        builder
    }

    /// Sets the link to the issue tracker.
    pub fn issue_tracker_url(self, issue_tracker_url: &str) -> (builder: Self)
        ensures
            builder.issue_tracker_url is Some,
            builder.issue_tracker_url->0@ == issue_tracker_url@,
            builder == (CauldronModInfoBuilder {
                issue_tracker_url: builder.issue_tracker_url,
                ..self
            }),
    {
        let mut builder = self;
        builder.issue_tracker_url = Some(issue_tracker_url.to_owned());
        builder
    }

    /// Replaces the list of authors.
    pub fn authors(self, authors: Vec<String>) -> (builder: Self)
        ensures
            builder == (CauldronModInfoBuilder { authors: Some(authors), ..self }),
    {
        let mut builder = self;
        builder.authors = Some(authors);
        builder
    }

    /// Appends one author to the list, which starts out empty.
    pub fn author(self, author: &str) -> (builder: Self)
        ensures
            builder.authors is Some,
            texts_view(builder.authors->0@) == match self.authors {
                Some(authors) => texts_view(authors@).push(author@),
                None => seq![author@],
            },
            builder == (CauldronModInfoBuilder { authors: builder.authors, ..self }),
    {
        let mut builder = self;
        let mut authors: Vec<String> = match builder.authors {
            Some(authors) => authors,
            None => Vec::new(),
        };
        let ghost before = authors@;
        authors.push(author.to_owned());
        proof {
            assert(texts_view(authors@) =~= texts_view(before).push(author@));
            assert(texts_view(Seq::<String>::empty()).push(author@) =~= seq![author@]);
        }
        builder.authors = Some(authors);
        builder
    }

    /// Replaces the list of dependencies.
    pub fn dependencies(self, dependencies: Vec<CauldronModDependency>) -> (builder: Self)
        ensures
            builder == (CauldronModInfoBuilder { depends: Some(dependencies), ..self }),
    {
        let mut builder = self;
        builder.depends = Some(dependencies);
        builder
    }

    /// Appends one dependency to the list, which starts out empty.
    pub fn dependency(self, dependency: CauldronModDependency) -> (builder: Self)
        ensures
            builder.depends is Some,
            builder.depends->0@ == match self.depends {
                Some(depends) => depends@.push(dependency),
                None => seq![dependency],
            },
            builder == (CauldronModInfoBuilder { depends: builder.depends, ..self }),
    {
        let mut builder = self;
        let mut depends: Vec<CauldronModDependency> = match builder.depends {
            Some(depends) => depends,
            None => Vec::new(),
        };
        depends.push(dependency);
        proof {
            assert(Seq::<CauldronModDependency>::empty().push(dependency) =~= seq![dependency]);
        }
        builder.depends = Some(depends);
        builder
    }

    /// Builds the raw record: every string encoded, every list with its
    /// length, and an absent string or list left absent.
    pub fn build(self) -> (raw: CauldronModInfo)
        requires
            self.buildable(),
        ensures
            self.builds(raw),
    {
        let (authors_len, authors): (u32, Option<Vec<Vec<u8>>>) = match &self.authors {
            None => (0, None),
            Some(authors) => {
                let mut encoded: Vec<Vec<u8>> = Vec::new();
                let mut i: usize = 0;
                while i < authors.len()
                    invariant
                        i <= authors@.len(),
                        encoded@.len() == i,
                        forall|k: int|
                            0 <= k < i ==> (#[trigger] encoded@[k])@ == encode_utf8(authors@[k]@),
                    decreases authors@.len() - i,
                {
                    encoded.push(authors[i].as_str().as_bytes_vec());
                    i += 1;
                }
                (authors.len() as u32, Some(encoded))
            },
        };
        let depends_len: u32 = match &self.depends {
            None => 0,
            Some(depends) => depends.len() as u32,
        };
        CauldronModInfo {
            name: self.name.as_str().as_bytes_vec(),
            version: self.version.as_str().as_bytes_vec(),
            display_name: encode_optional(&self.display_name),
            description: encode_optional(&self.description),
            homepage_url: encode_optional(&self.homepage_url),
            source_url: encode_optional(&self.source_url),
            issue_tracker_url: encode_optional(&self.issue_tracker_url),
            authors_len,
            authors,
            depends_len,
            depends: self.depends,
        }
    }
}

/// Calls `core::str::from_utf8`. Not proved: that it accepts exactly the
/// valid UTF-8 byte strings, and that the text it returns is the decoding of
/// the bytes.
#[verifier::external_body]
fn str_from_utf8(bytes: &[u8]) -> (text: Option<&str>)
    ensures
        text is Some <==> valid_utf8(bytes@),
        text matches Some(t) ==> t@ == decode_utf8(bytes@),
{
    core::str::from_utf8(bytes).ok()
}

fn decode_text(bytes: &Vec<u8>) -> (text: String)
    requires
        valid_utf8(bytes@),
    ensures
        text@ == decode_utf8(bytes@),
{
    str_from_utf8(bytes.as_slice()).unwrap().to_owned()
}

fn decode_optional(bytes: &Option<Vec<u8>>) -> (text: Option<String>)
    requires
        readable_optional(*bytes),
    ensures
        text_view(text) == decoded_optional(*bytes),
{
    match bytes {
        None => None,
        Some(b) => Some(decode_text(b)),
    }
}

fn is_text(bytes: &Vec<u8>) -> (yes: bool)
    ensures
        yes == valid_utf8(bytes@),
{
    str_from_utf8(bytes.as_slice()).is_some()
}

fn is_optional_text(bytes: &Option<Vec<u8>>) -> (yes: bool)
    ensures
        yes == readable_optional(*bytes),
{
    match bytes {
        None => true,
        Some(b) => is_text(b),
    }
}

fn is_nul_free(text: &str) -> (yes: bool)
    ensures
        yes == nul_free(text@),
{
    let bytes = text.as_bytes();
    let mut i: usize = 0;
    while i < bytes.len()
        invariant
            i <= bytes@.len(),
            bytes@ == encode_utf8(text@),
            forall|k: int| 0 <= k < i ==> bytes@[k] != 0u8,
        decreases bytes@.len() - i,
    {
        if bytes[i] == 0 {
            assert(bytes@.contains(0u8));
            return false;
        }
        i += 1;
    }
    true
}

fn is_optional_nul_free(text: &Option<String>) -> (yes: bool)
    ensures
        yes == (text matches Some(t) ==> nul_free(t@)),
{
    match text {
        None => true,
        Some(t) => is_nul_free(t.as_str()),
    }
}

impl CauldronModDependency {
    /// Says whether the record can be read.
    pub fn is_readable(&self) -> (yes: bool)
        ensures
            yes == self.readable(),
    {
        is_text(&self.name) && is_optional_text(&self.version)
    }
}

impl CauldronModInfo {
    /// Says whether the record can be read.
    pub fn is_readable(&self) -> (yes: bool)
        ensures
            yes == self.readable(),
    {
        if !(is_text(&self.name) && is_text(&self.version) && is_optional_text(&self.display_name)
            && is_optional_text(&self.description) && is_optional_text(&self.homepage_url)
            && is_optional_text(&self.source_url) && is_optional_text(&self.issue_tracker_url)) {
            return false;
        }
        match &self.authors {
            None => {},
            Some(authors) => {
                if self.authors_len as usize > authors.len() {
                    return false;
                }
                let mut i: usize = 0;
                while i < self.authors_len as usize
                    invariant
                        self.authors == Some(*authors),
                        self.authors_len <= authors@.len(),
                        i <= self.authors_len,
                        forall|k: int| 0 <= k < i ==> valid_utf8((#[trigger] authors@[k])@),
                    decreases self.authors_len - i,
                {
                    if !is_text(&authors[i]) {
                        assert(!valid_utf8(authors@[i as int]@));
                        return false;
                    }
                    i += 1;
                }
            },
        }
        match &self.depends {
            None => {},
            Some(depends) => {
                if self.depends_len as usize > depends.len() {
                    return false;
                }
                let mut i: usize = 0;
                while i < self.depends_len as usize
                    invariant
                        self.depends == Some(*depends),
                        self.depends_len <= depends@.len(),
                        i <= self.depends_len,
                        forall|k: int| 0 <= k < i ==> (#[trigger] depends@[k]).readable(),
                    decreases self.depends_len - i,
                {
                    if !depends[i].is_readable() {
                        assert(!depends@[i as int].readable());
                        return false;
                    }
                    i += 1;
                }
            },
        }
        true
    }
}

impl CauldronModInfoBuilder {
    /// Says whether the builder can be turned into a raw record.
    pub fn is_buildable(&self) -> (yes: bool)
        ensures
            yes == self.buildable(),
    {
        if !(is_nul_free(self.name.as_str()) && is_nul_free(self.version.as_str())
            && is_optional_nul_free(&self.display_name) && is_optional_nul_free(&self.description)
            && is_optional_nul_free(&self.homepage_url) && is_optional_nul_free(&self.source_url)
            && is_optional_nul_free(&self.issue_tracker_url)) {
            return false;
        }
        match &self.authors {
            None => {},
            Some(authors) => {
                if authors.len() > 0xffff_ffff {
                    return false;
                }
                let mut i: usize = 0;
                while i < authors.len()
                    invariant
                        self.authors == Some(*authors),
                        authors@.len() <= u32::MAX,
                        i <= authors@.len(),
                        forall|k: int| 0 <= k < i ==> nul_free((#[trigger] authors@[k])@),
                    decreases authors@.len() - i,
                {
                    if !is_nul_free(authors[i].as_str()) {
                        assert(!nul_free(authors@[i as int]@));
                        return false;
                    }
                    i += 1;
                }
            },
        }
        match &self.depends {
            None => true,
            Some(depends) => depends.len() <= 0xffff_ffff,
        }
    }
}

impl SafeCauldronModDependency {
    /// Reads a raw dependency into an owned one.
    pub fn from(value: &CauldronModDependency) -> (owned: Self)
        requires
            value.readable(),
        ensures
            owned@ == value.described(),
    {
        SafeCauldronModDependency {
            name: decode_text(&value.name),
            version: decode_optional(&value.version),
            optional: value.optional,
        }
    }
}

impl SafeCauldronModInfo {
    /// Reads a raw descriptor into an owned one, copying every string and
    /// every list.
    pub fn from(value: CauldronModInfo) -> (owned: Self)
        requires
            value.readable(),
        ensures
            owned@ == value.described(),
    {
        let mut authors: Vec<String> = Vec::new();
        match &value.authors {
            None => {},
            Some(raw) => {
                let mut i: usize = 0;
                while i < value.authors_len as usize
                    invariant
                        value.readable(),
                        value.authors == Some(*raw),
                        i <= value.authors_len,
                        authors@.len() == i,
                        forall|k: int|
                            0 <= k < i ==> (#[trigger] authors@[k])@ == decode_utf8(raw@[k]@),
                    decreases value.authors_len - i,
                {
                    authors.push(decode_text(&raw[i]));
                    i += 1;
                }
            },
        }
        let mut dependencies: Vec<SafeCauldronModDependency> = Vec::new();
        match &value.depends {
            None => {},
            Some(raw) => {
                let mut i: usize = 0;
                while i < value.depends_len as usize
                    invariant
                        value.readable(),
                        value.depends == Some(*raw),
                        i <= value.depends_len,
                        dependencies@.len() == i,
                        forall|k: int|
                            0 <= k < i ==> (#[trigger] dependencies@[k])@ == raw@[k].described(),
                    decreases value.depends_len - i,
                {
                    dependencies.push(SafeCauldronModDependency::from(&raw[i]));
                    i += 1;
                }
            },
        }
        let owned = SafeCauldronModInfo {
            name: decode_text(&value.name),
            version: decode_text(&value.version),
            display_name: decode_optional(&value.display_name),
            description: decode_optional(&value.description),
            homepage_url: decode_optional(&value.homepage_url),
            source_url: decode_optional(&value.source_url),
            issue_tracker_url: decode_optional(&value.issue_tracker_url),
            authors,
            dependencies,
        };
        proof {
            assert(owned@.authors =~= value.described().authors);
            assert(owned@.dependencies =~= value.described().dependencies);
        }
        owned
    }
}

/// What a builder builds can be read, and reading it gives back the
/// builder's strings, its authors in their order, and its dependencies in
/// theirs.
pub proof fn built_record_reads_back(builder: CauldronModInfoBuilder, raw: CauldronModInfo)
    requires
        builder.builds(raw),
        builder.depends matches Some(depends) ==> forall|i: int|
            0 <= i < depends@.len() ==> (#[trigger] depends@[i]).readable(),
    ensures
        raw.readable(),
        raw.described().name == builder.name@,
        raw.described().version == builder.version@,
        raw.described().display_name == text_view(builder.display_name),
        raw.described().description == text_view(builder.description),
        raw.described().homepage_url == text_view(builder.homepage_url),
        raw.described().source_url == text_view(builder.source_url),
        raw.described().issue_tracker_url == text_view(builder.issue_tracker_url),
        raw.described().authors == match builder.authors {
            Some(authors) => texts_view(authors@),
            None => Seq::empty(),
        },
        raw.described().dependencies == match builder.depends {
            Some(depends) => depends@.map_values(|d: CauldronModDependency| d.described()),
            None => Seq::empty(),
        },
{
    broadcast use encode_utf8_decode_utf8, encode_utf8_valid_utf8;

    match builder.authors {
        Some(authors) => {
            assert forall|i: int| 0 <= i < raw.authors_len implies valid_utf8(
                (#[trigger] raw.authors->0@[i])@,
            ) by {
                assert(raw.authors->0@[i]@ == encode_utf8(authors@[i]@));
            }
            assert forall|i: int| 0 <= i < authors@.len() implies raw.described().authors[i]
                == texts_view(authors@)[i] by {
                assert(raw.authors->0@[i]@ == encode_utf8(authors@[i]@));
            }
            assert(raw.described().authors =~= texts_view(authors@));
        },
        None => {
            assert(raw.described().authors =~= Seq::<Seq<char>>::empty());
        },
    }
    match builder.depends {
        Some(depends) => {
            assert(raw.described().dependencies =~= depends@.map_values(
                |d: CauldronModDependency| d.described(),
            ));
        },
        None => {
            assert(raw.described().dependencies =~= Seq::<DependencyView>::empty());
        },
    }
}

/// The raw form of a dependency can be read, and reading it gives the
/// dependency back.
pub proof fn encoded_dependency_reads_back(raw: CauldronModDependency, dependency: DependencyView)
    requires
        raw.encodes(dependency),
    ensures
        raw.readable(),
        raw.described() == dependency,
{
    broadcast use encode_utf8_decode_utf8, encode_utf8_valid_utf8;

}

} // verus!
