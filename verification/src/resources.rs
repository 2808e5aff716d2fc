//! The pure core of the compile-time resource packer: classifying files by
//! extension, validating and deriving Rust identifiers from file names, and
//! assembling a directory's entries into a module of named resources.
//!
//! All file-system reading and image decoding happens in the unverified
//! shell, which hands each directory entry in as plain values: the file
//! name, the raw bytes, a decoded image where the name asks for one, or an
//! already-built submodule.

use vstd::prelude::*;

verus! {

/// A resource compiled from one file.
#[derive(Debug, PartialEq)]
pub enum Resource {
    /// An opaque binary resource: the file's bytes, unchanged.
    Blob {
        /// The file's contents
        bytes: Vec<u8>,
    },
    /// A decoded image, RGBA with four channel values per pixel, row-major.
    /// Each channel value is the numerator over 255 of the float channel
    /// value the generated code exposes.
    Image {
        /// Width in pixels
        width: usize,
        /// Height in pixels
        height: usize,
        /// `4 * width * height` channel values
        channels: Vec<u8>,
    },
}

/// One named thing inside a module.
#[derive(Debug, PartialEq)]
pub enum Item {
    /// A nested module, from a subdirectory
    Module {
        /// The nested module
        module: Module,
    },
    /// A resource, from a file
    Resource {
        /// The resource
        resource: Resource,
    },
}

/// A module of named items, one per non-hidden directory entry, in the
/// order the entries were given; identifiers are unique.
#[derive(Debug, PartialEq)]
pub struct Module {
    /// The items, each under its derived identifier.
    pub items: Vec<(String, Item)>,
}

/// An image as decoded by the shell.
#[derive(Debug, PartialEq)]
pub struct DecodedImage {
    /// Width in pixels
    pub width: usize,
    /// Height in pixels
    pub height: usize,
    /// `4 * width * height` RGBA channel values
    pub channels: Vec<u8>,
}

/// What a directory entry holds.
#[derive(Debug, PartialEq)]
pub enum EntryData {
    /// A subdirectory, already built into a module
    Directory {
        /// The subdirectory's module
        module: Module,
    },
    /// A file: its raw bytes and, where the name has an image extension
    /// and the bytes decode, the decoded image
    File {
        /// The file's contents
        bytes: Vec<u8>,
        /// The decoded image, for image extensions
        image: Option<DecodedImage>,
    },
}

/// One directory entry handed to the module builder.
#[derive(Debug, PartialEq)]
pub struct Entry {
    /// The file or directory name, without any leading path
    pub name: String,
    /// What the entry holds
    pub data: EntryData,
}

/// Errors of the module builder.
#[derive(Debug, PartialEq)]
pub enum Error {
    /// A file name's stem holds characters not allowed in a Rust
    /// identifier (the stem must match letter, then letters, digits,
    /// `_` or `-`)
    FilenameNotValidRustIdentifier {
        /// The offending name
        path: String,
    },
    /// Two entries map to the same identifier
    ConflictingIdentifiers {
        /// The name that claimed the identifier first
        a: String,
        /// The name that collided with it
        b: String,
        /// The identifier both map to
        identifier: String,
    },
    /// A file name has no extension
    MissingExtension {
        /// The offending name
        path: String,
    },
    /// A name has an extension no resource type is known for, or a
    /// directory name has an extension
    UnsupportedExtension {
        /// The offending name
        path: String,
        /// The offending extension
        extension: String,
    },
    /// A file with an image extension did not decode
    ImageDecode {
        /// The offending name
        path: String,
    },
}

/// The resource types, by extension.
#[derive(Copy, Clone, Debug, PartialEq, Eq)]
pub enum ResourceKind {
    /// `blob`: the raw bytes
    Blob,
    /// `jpg`, `jpeg`, `png`: a decoded image
    Image,
}

/// Whether `c` is an ASCII letter.
pub open spec fn is_alpha_char(c: char) -> bool {
    (97 <= c as u32 && c as u32 <= 122) || (65 <= c as u32 && c as u32 <= 90)
}

/// Whether `c` may appear in a file name stem: a letter, digit, `_` or `-`.
pub open spec fn is_stem_char(c: char) -> bool {
    ||| is_alpha_char(c)
    ||| (48 <= c as u32 && c as u32 <= 57)
    ||| c as u32 == 95
    ||| c as u32 == 45
}

/// Whether a stem can become a Rust identifier: non-empty, a letter first,
/// every character a letter, digit, `_` or `-`.
pub open spec fn valid_stem_chars(s: Seq<char>) -> bool {
    &&& s.len() > 0
    &&& is_alpha_char(s[0])
    &&& forall|i: int| 0 <= i < s.len() ==> is_stem_char(#[trigger] s[i])
}

/// The identifier transformation on one byte: `-` becomes `_`, and ASCII
/// letters are folded to upper case (for files) or lower case (for
/// directories).
pub open spec fn ident_byte(b: u8, upper: bool) -> u8 {
    if b == 45 {
        95
    } else if upper && 97 <= b && b <= 122 {
        (b - 32) as u8
    } else if !upper && 65 <= b && b <= 90 {
        (b + 32) as u8
    } else {
        b
    }
}

/// The position of the last `.` of a name at index 1 or later, scanning
/// from position `i` down.
pub open spec fn last_dot_from(name: Seq<char>, i: int) -> Option<int>
    decreases i,
{
    if i < 1 || i >= name.len() {
        None
    } else if name[i] as u32 == 46 {
        Some(i)
    } else {
        last_dot_from(name, i - 1)
    }
}

/// The position of the `.` separating a name's stem from its extension:
/// the last dot, except that a dot leading the name opens no extension.
pub open spec fn last_dot(name: Seq<char>) -> Option<int> {
    last_dot_from(name, name.len() - 1)
}

/// A name's stem: everything before the extension dot.
pub open spec fn entry_stem(name: Seq<char>) -> Seq<char> {
    match last_dot(name) {
        Some(d) => name.subrange(0, d),
        None => name,
    }
}

/// A name's extension, if it has one.
pub open spec fn entry_ext(name: Seq<char>) -> Option<Seq<char>> {
    match last_dot(name) {
        Some(d) => Some(name.subrange(d + 1, name.len() as int)),
        None => None,
    }
}

/// Whether an entry is hidden — its stem begins with a dot — and is
/// skipped without further checks.
pub open spec fn hidden(name: Seq<char>) -> bool {
    &&& entry_stem(name).len() > 0
    &&& entry_stem(name)[0] as u32 == 46
}

/// The resource type an extension names, if any.
pub open spec fn kind_for_ext(ext: Seq<char>) -> Option<ResourceKind> {
    if ext == "blob"@ {
        Some(ResourceKind::Blob)
    } else if ext == "jpg"@ || ext == "jpeg"@ || ext == "png"@ {
        Some(ResourceKind::Image)
    } else {
        None
    }
}

/// Whether a non-hidden entry passes every check: a valid stem, and for a
/// directory no extension, for a file a known extension with, for image
/// extensions, a decoded image.
pub open spec fn entry_ok(e: Entry) -> bool {
    &&& valid_stem_chars(entry_stem(e.name@))
    &&& match e.data {
        EntryData::Directory { .. } => entry_ext(e.name@) is None,
        EntryData::File { bytes, image } => match entry_ext(e.name@) {
            None => false,
            Some(ext) => match kind_for_ext(ext) {
                Some(ResourceKind::Blob) => true,
                Some(ResourceKind::Image) => image is Some,
                None => false,
            },
        },
    }
}

/// The identifier a non-hidden, valid entry maps to: the stem with `-`
/// turned into `_`, upper-cased for files and lower-cased for directories.
pub open spec fn expected_identifier(e: Entry) -> Seq<char> {
    Seq::new(
        entry_stem(e.name@).len(),
        |i: int| ident_byte(entry_stem(e.name@)[i] as u8, e.data is File) as char,
    )
}

/// The item a non-hidden, valid entry produces.
pub open spec fn expected_item(e: Entry) -> Item {
    match e.data {
        EntryData::Directory { module } => Item::Module { module },
        EntryData::File { bytes, image } => match entry_ext(e.name@) {
            Some(ext) => {
                if kind_for_ext(ext) == Some(ResourceKind::Blob) {
                    Item::Resource { resource: Resource::Blob { bytes } }
                } else {
                    Item::Resource {
                        resource: Resource::Image {
                            width: image->0.width,
                            height: image->0.height,
                            channels: image->0.channels,
                        },
                    }
                }
            },
            None => arbitrary(),
        },
    }
}

/// The indices of the entries a module keeps: the non-hidden ones, in
/// order.
pub open spec fn retained(entries: Seq<Entry>) -> Seq<int>
    decreases entries.len(),
{
    if entries.len() == 0 {
        Seq::empty()
    } else {
        let prefix = retained(entries.drop_last());
        if hidden(entries.last().name@) {
            prefix
        } else {
            prefix.push(entries.len() - 1)
        }
    }
}

/// Whether building a module from the entries must fail: some non-hidden
/// entry fails its checks, or two non-hidden entries map to the same
/// identifier.
pub open spec fn entries_fail(entries: Seq<Entry>) -> bool {
    ||| exists|j: int|
        0 <= j < entries.len() && !hidden((#[trigger] entries[j]).name@) && !entry_ok(entries[j])
    ||| exists|j1: int, j2: int|
        0 <= j1 < j2 < entries.len() && !hidden((#[trigger] entries[j1]).name@) && !hidden(
            (#[trigger] entries[j2]).name@,
        ) && expected_identifier(entries[j1]) == expected_identifier(entries[j2])
}

/// Whether `c` is an ASCII letter, executable.
fn char_is_alpha(c: char) -> (b: bool)
    ensures
        b == is_alpha_char(c),
{
    let u = c as u32;
    (97 <= u && u <= 122) || (65 <= u && u <= 90)
}

/// Whether `c` may appear in a stem, executable.
fn char_is_stem(c: char) -> (b: bool)
    ensures
        b == is_stem_char(c),
{
    let u = c as u32;
    char_is_alpha(c) || (48 <= u && u <= 57) || u == 95 || u == 45
}

/// Whether a file name stem can become a Rust identifier.
pub fn valid_stem(stem: &str) -> (b: bool)
    ensures
        b == valid_stem_chars(stem@),
{
    let n = stem.unicode_len();
    if n == 0 {
        return false;
    }
    if !char_is_alpha(stem.get_char(0)) {
        return false;
    }
    let mut i: usize = 0;
    while i < n
        invariant
            0 <= i <= n,
            n == stem@.len(),
            is_alpha_char(stem@[0]),
            forall|j: int| 0 <= j < i ==> is_stem_char(#[trigger] stem@[j]),
        decreases n - i,
    {
        if !char_is_stem(stem.get_char(i)) {
            return false;
        }
        i = i + 1;
    }
    true
}

/// Relies on String::from_utf8: ASCII bytes are valid UTF-8 and decode to
/// exactly one char per byte, of the byte's own value, so the call cannot
/// fail on the admitted inputs.
#[verifier::external_body]
fn string_from_ascii(bytes: Vec<u8>) -> (s: String)
    requires
        forall|i: int| 0 <= i < bytes@.len() ==> bytes@[i] < 128,
    ensures
        s@.len() == bytes@.len(),
        forall|i: int| 0 <= i < bytes@.len() ==> s@[i] == (bytes@[i] as char),
{
    String::from_utf8(bytes).unwrap()
}

/// Derive the identifier for a validated stem: `-` becomes `_`, and the
/// letters are folded to upper case for a file, lower case for a
/// directory.
pub fn identifier_for(stem: &str, is_file: bool) -> (id: String)
    requires
        valid_stem_chars(stem@),
    ensures
        id@.len() == stem@.len(),
        forall|i: int|
            0 <= i < stem@.len() ==> id@[i] == (ident_byte(#[trigger] stem@[i] as u8, is_file)
                as char),
{
    let n = stem.unicode_len();
    let mut bytes: Vec<u8> = Vec::new();
    let mut i: usize = 0;
    while i < n
        invariant
            0 <= i <= n,
            n == stem@.len(),
            valid_stem_chars(stem@),
            bytes@.len() == i,
            forall|j: int|
                0 <= j < i ==> #[trigger] bytes@[j] == ident_byte(stem@[j] as u8, is_file)
                    && bytes@[j] < 128,
        decreases n - i,
    {
        let c = stem.get_char(i);
        proof {
            assert(is_stem_char(stem@[i as int]));
        }
        let u = c as u32;
        let b = u as u8;
        proof {
            assert(u < 128);
            assert(b == stem@[i as int] as u8);
        }
        let t: u8 = if b == 45 {
            95
        } else if is_file && 97 <= b && b <= 122 {
            b - 32
        } else if !is_file && 65 <= b && b <= 90 {
            b + 32
        } else {
            b
        };
        bytes.push(t);
        i = i + 1;
    }
    string_from_ascii(bytes)
}

/// A dot found by the scan lies strictly inside the name.
proof fn lemma_last_dot_in_range(name: Seq<char>, i: int)
    ensures
        last_dot_from(name, i) matches Some(d) ==> 1 <= d < name.len(),
    decreases i,
{
    if !(i < 1 || i >= name.len()) && !(name[i] as u32 == 46) {
        lemma_last_dot_in_range(name, i - 1);
    }
}

/// Find the extension dot of a file name.
fn find_last_dot(name: &str) -> (r: Option<usize>)
    ensures
        match r {
            Some(d) => last_dot(name@) == Some(d as int),
            None => last_dot(name@) is None,
        },
{
    let n = name.unicode_len();
    if n == 0 {
        return None;
    }
    let mut i: usize = n - 1;
    while i >= 1
        invariant
            0 <= i <= n - 1,
            n == name@.len(),
            last_dot(name@) == last_dot_from(name@, i as int),
        decreases i,
    {
        let u = name.get_char(i) as u32;
        if u == 46 {
            return Some(i);
        }
        i = i - 1;
    }
    None
}

/// Split a file name into its stem and, where a dot opens one, its
/// extension.
pub fn split_name(name: &str) -> (r: (String, Option<String>))
    ensures
        r.0@ == entry_stem(name@),
        match r.1 {
            Some(e) => entry_ext(name@) == Some(e@),
            None => entry_ext(name@) is None,
        },
{
    match find_last_dot(name) {
        Some(d) => {
            proof {
                lemma_last_dot_in_range(name@, name@.len() - 1);
            }
            let n = name.unicode_len();
            let stem = name.substring_char(0, d).to_owned();
            let extension = name.substring_char(d + 1, n).to_owned();
            (stem, Some(extension))
        },
        None => (name.to_owned(), None),
    }
}

/// Whether a split-off stem marks the entry as hidden.
fn stem_hidden(stem: &str) -> (b: bool)
    ensures
        b == (stem@.len() > 0 && stem@[0] as u32 == 46),
{
    if stem.unicode_len() == 0 {
        false
    } else {
        stem.get_char(0) as u32 == 46
    }
}

/// The resource type a file extension names.
pub fn extension_kind(extension: &str) -> (r: Option<ResourceKind>)
    ensures
        r == kind_for_ext(extension@),
{
    let owned = extension.to_owned();
    if owned == String::from_str("blob") {
        Some(ResourceKind::Blob)
    } else if owned == String::from_str("jpg") || owned == String::from_str("jpeg") || owned
        == String::from_str("png") {
        Some(ResourceKind::Image)
    } else {
        None
    }
}

/// Every retained index is in range, names a non-hidden entry, and the
/// indices increase.
proof fn lemma_retained_bounds(entries: Seq<Entry>)
    ensures
        forall|k: int|
            0 <= k < retained(entries).len() ==> 0 <= #[trigger] retained(entries)[k]
                < entries.len() && !hidden(entries[retained(entries)[k]].name@),
        forall|k1: int, k2: int|
            0 <= k1 < k2 < retained(entries).len() ==> retained(entries)[k1] < retained(
                entries,
            )[k2],
    decreases entries.len(),
{
    if entries.len() > 0 {
        lemma_retained_bounds(entries.drop_last());
    }
}

/// Every non-hidden entry appears among the retained indices.
proof fn lemma_retained_complete(entries: Seq<Entry>, j: int)
    requires
        0 <= j < entries.len(),
        !hidden(entries[j].name@),
    ensures
        exists|k: int|
            0 <= k < retained(entries).len() && #[trigger] retained(entries)[k] == j,
    decreases entries.len(),
{
    if j == entries.len() - 1 {
        assert(retained(entries)[retained(entries).len() - 1] == j);
    } else {
        lemma_retained_complete(entries.drop_last(), j);
        let k = choose|k: int|
            0 <= k < retained(entries.drop_last()).len() && #[trigger] retained(
                entries.drop_last(),
            )[k] == j;
        assert(retained(entries)[k] == j);
    }
}

impl Module {
    /// The module invariant: identifiers are pairwise distinct.
    pub open spec fn wf(self) -> bool {
        forall|k1: int, k2: int|
            0 <= k1 < k2 < self.items@.len() ==> (#[trigger] self.items@[k1]).0@
                != (#[trigger] self.items@[k2]).0@
    }

    /// Build a module from a directory's entries, in order.  Hidden
    /// entries (stem beginning with a dot) are skipped; every other entry
    /// must have a valid stem and a known shape, and the derived
    /// identifiers must not collide; the first offence fails the build.
    #[verifier::loop_isolation(false)]
    pub fn from_entries(entries: Vec<Entry>) -> (r: Result<Module, Error>)
        ensures
            match r {
                Ok(m) => {
                    &&& !entries_fail(entries@)
                    &&& m.wf()
                    &&& m.items@.len() == retained(entries@).len()
                    &&& forall|k: int|
                        0 <= k < retained(entries@).len() ==> {
                            &&& (#[trigger] m.items@[k]).0@ == expected_identifier(
                                entries@[retained(entries@)[k]],
                            )
                            &&& m.items@[k].1 == expected_item(entries@[retained(entries@)[k]])
                        }
                },
                Err(e) => {
                    &&& entries_fail(entries@)
                    &&& {
                        ||| e is FilenameNotValidRustIdentifier
                        ||| e is ConflictingIdentifiers
                        ||| e is MissingExtension
                        ||| e is UnsupportedExtension
                        ||| e is ImageDecode
                    }
                },
            },
    {
        let ghost orig = entries@;
        let total = entries.len();
        let mut remaining = entries;
        let mut items: Vec<(String, Item)> = Vec::new();
        let mut names: Vec<String> = Vec::new();
        let mut processed: usize = 0;
        while remaining.len() > 0
            invariant
                total == orig.len(),
                processed + remaining@.len() == total,
                remaining@ == orig.subrange(processed as int, orig.len() as int),
                items@.len() == retained(orig.subrange(0, processed as int)).len(),
                names@.len() == items@.len(),
                forall|k: int|
                    0 <= k < items@.len() ==> {
                        &&& (#[trigger] items@[k]).0@ == expected_identifier(
                            orig[retained(orig.subrange(0, processed as int))[k]],
                        )
                        &&& items@[k].1 == expected_item(
                            orig[retained(orig.subrange(0, processed as int))[k]],
                        )
                    },
                forall|k1: int, k2: int|
                    0 <= k1 < k2 < items@.len() ==> (#[trigger] items@[k1]).0@
                        != (#[trigger] items@[k2]).0@,
                forall|j: int|
                    0 <= j < processed ==> hidden((#[trigger] orig[j]).name@) || entry_ok(
                        orig[j],
                    ),
                forall|j1: int, j2: int|
                    0 <= j1 < j2 < processed && !hidden((#[trigger] orig[j1]).name@) && !hidden(
                        (#[trigger] orig[j2]).name@,
                    ) ==> expected_identifier(orig[j1]) != expected_identifier(orig[j2]),
            decreases remaining@.len(),
        {
            let entry = remaining.remove(0);
            let ghost ge = entry;
            let ghost pre = orig.subrange(0, processed as int);
            let ghost post = orig.subrange(0, processed as int + 1);
            proof {
                assert(ge == orig[processed as int]);
                assert(post.drop_last() =~= pre);
                assert(post.last() == ge);
            }
            let Entry { name, data } = entry;
            let (stem, ext_opt) = split_name(name.as_str());
            if stem_hidden(stem.as_str()) {
                proof {
                    assert(hidden(ge.name@));
                    assert(retained(post) =~= retained(pre));
                }
                processed = processed + 1;
                proof {
                    assert(remaining@ =~= orig.subrange(
                        processed as int,
                        orig.len() as int,
                    ));
                }
            } else {
                proof {
                    assert(!hidden(ge.name@));
                }
                if !valid_stem(stem.as_str()) {
                    proof {
                        assert(!entry_ok(ge));
                        assert(entries_fail(orig));
                    }
                    return Err(Error::FilenameNotValidRustIdentifier { path: name });
                }
                let is_file = match &data {
                    EntryData::File { .. } => true,
                    EntryData::Directory { .. } => false,
                };
                let identifier = identifier_for(stem.as_str(), is_file);
                proof {
                    assert(identifier@ =~= expected_identifier(ge));
                }
                let mut k: usize = 0;
                while k < names.len()
                    invariant
                        0 <= k <= names@.len(),
                        names@.len() == items@.len(),
                        identifier@ == expected_identifier(ge),
                        forall|kk: int|
                            0 <= kk < k ==> (#[trigger] items@[kk]).0@ != identifier@,
                    decreases names@.len() - k,
                {
                    if items[k].0 == identifier {
                        proof {
                            lemma_retained_bounds(pre);
                            assert(k < retained(pre).len());
                            let j1 = retained(pre)[k as int];
                            assert(0 <= j1 < pre.len());
                            assert(orig.subrange(0, processed as int)[j1] == orig[j1]);
                            assert(!hidden(orig[j1].name@));
                            assert(expected_identifier(orig[j1]) == expected_identifier(
                                orig[processed as int],
                            ));
                            assert(entries_fail(orig));
                        }
                        return Err(
                            Error::ConflictingIdentifiers {
                                a: names[k].clone(),
                                b: name,
                                identifier,
                            },
                        );
                    }
                    k = k + 1;
                }
                let item: Item = match data {
                    EntryData::Directory { module } => {
                        match ext_opt {
                            Some(extension) => {
                                proof {
                                    assert(!entry_ok(ge));
                                    assert(entries_fail(orig));
                                }
                                return Err(
                                    Error::UnsupportedExtension { path: name, extension },
                                );
                            },
                            None => Item::Module { module },
                        }
                    },
                    EntryData::File { bytes, image } => {
                        let extension = match ext_opt {
                            Some(extension) => extension,
                            None => {
                                proof {
                                    assert(!entry_ok(ge));
                                    assert(entries_fail(orig));
                                }
                                return Err(Error::MissingExtension { path: name });
                            },
                        };
                        match extension_kind(extension.as_str()) {
                            Some(ResourceKind::Blob) => {
                                Item::Resource { resource: Resource::Blob { bytes } }
                            },
                            Some(ResourceKind::Image) => {
                                match image {
                                    Some(decoded) => {
                                        Item::Resource {
                                            resource: Resource::Image {
                                                width: decoded.width,
                                                height: decoded.height,
                                                channels: decoded.channels,
                                            },
                                        }
                                    },
                                    None => {
                                        proof {
                                            assert(!entry_ok(ge));
                                            assert(entries_fail(orig));
                                        }
                                        return Err(Error::ImageDecode { path: name });
                                    },
                                }
                            },
                            None => {
                                proof {
                                    assert(!entry_ok(ge));
                                    assert(entries_fail(orig));
                                }
                                return Err(
                                    Error::UnsupportedExtension { path: name, extension },
                                );
                            },
                        }
                    },
                };
                proof {
                    assert(entry_ok(ge));
                    assert(item == expected_item(ge));
                    assert(retained(post) =~= retained(pre).push(processed as int));
                }
                names.push(name.clone());
                items.push((identifier, item));
                processed = processed + 1;
                proof {
                    assert(remaining@ =~= orig.subrange(
                        processed as int,
                        orig.len() as int,
                    ));
                    assert forall|j1: int, j2: int|
                        0 <= j1 < j2 < processed && !hidden((#[trigger] orig[j1]).name@)
                            && !hidden((#[trigger] orig[j2]).name@) implies expected_identifier(
                        orig[j1],
                    ) != expected_identifier(orig[j2]) by {
                        if j2 == processed - 1 {
                            lemma_retained_complete(pre, j1);
                            let kk = choose|kk: int|
                                0 <= kk < retained(pre).len() && #[trigger] retained(pre)[kk]
                                    == j1;
                            assert(items@[kk].0@ == expected_identifier(orig[j1]));
                        }
                    }
                }
            }
        }
        proof {
            lemma_retained_bounds(orig);
            assert(orig.subrange(0, processed as int) =~= orig);
            assert(!entries_fail(orig));
        }
        Ok(Module { items })
    }

    /// Look an identifier up, returning the index of its item.
    pub fn find(&self, identifier: &str) -> (r: Option<usize>)
        ensures
            match r {
                Some(k) => k < self.items@.len() && self.items@[k as int].0@ == identifier@,
                None => forall|k: int|
                    0 <= k < self.items@.len() ==> (#[trigger] self.items@[k]).0@
                        != identifier@,
            },
    {
        let owned = identifier.to_owned();
        let mut k: usize = 0;
        while k < self.items.len()
            invariant
                0 <= k <= self.items@.len(),
                owned@ == identifier@,
                forall|kk: int|
                    0 <= kk < k ==> (#[trigger] self.items@[kk]).0@ != identifier@,
            decreases self.items@.len() - k,
        {
            if self.items[k].0 == owned {
                return Some(k);
            }
            k = k + 1;
        }
        None
    }
}

} // verus!
