//! The texture atlas: which files are its layers, and which layer a name
//! selects.

use vstd::prelude::*;
use vstd::string::StrSliceExecFns;

verus! {

/// Index of a layer in the block texture array.
pub type TextureSlot = usize;

/// A texture name that the atlas does not hold.
///
/// This signals that the block catalogue and the texture assets do not belong
/// together; callers are expected to treat it as fatal.
#[derive(Clone, Debug, PartialEq, Eq)]
pub struct ConfigurationError {
    pub name: String,
}

/// The layer that `name` selects among `names`, if any.
///
/// Layers are numbered in the order of `names`. Where a name occurs more than
/// once, the last occurrence wins.
pub open spec fn slot_of(names: Seq<Seq<char>>, name: Seq<char>) -> Option<TextureSlot>
    decreases names.len(),
{
    if names.len() == 0 {
        None
    } else if names.last() == name {
        Some((names.len() - 1) as usize)
    } else {
        slot_of(names.drop_last(), name)
    }
}

/// `slot_of` finds the greatest index that carries the name, and finds
/// nothing exactly when no layer carries it.
pub proof fn lemma_slot_of(names: Seq<Seq<char>>, name: Seq<char>)
    requires
        names.len() <= usize::MAX,
    ensures
        match slot_of(names, name) {
            Some(i) => {
                &&& i < names.len()
                &&& names[i as int] == name
                &&& forall|j: int| i < j < names.len() ==> names[j] != name
            },
            None => forall|j: int| 0 <= j < names.len() ==> names[j] != name,
        },
    decreases names.len(),
{
    if names.len() > 0 && names.last() != name {
        let rest = names.drop_last();
        lemma_slot_of(rest, name);
        assert(forall|j: int| 0 <= j < rest.len() ==> rest[j] == names[j]);
        match slot_of(rest, name) {
            Some(i) => {
                assert(names[i as int] == rest[i as int]);
                assert forall|j: int| i < j < names.len() implies names[j] != name by {
                    if j < rest.len() {
                        assert(rest[j] != name);
                    }
                }
            },
            None => {
                assert forall|j: int| 0 <= j < names.len() implies names[j] != name by {
                    if j < rest.len() {
                        assert(rest[j] != name);
                    }
                }
            },
        }
    }
}

/// The names of the texture layers, in layer order.
pub struct TextureManager {
    names: Vec<String>,
}

impl TextureManager {
    /// The layer names, in layer order.
    pub closed spec fn names(&self) -> Seq<Seq<char>> {
        Seq::new(self.names@.len(), |i: int| self.names@[i]@)
    }

    /// An atlas whose layer `i` is called `names[i]`.
    pub fn new(names: Vec<String>) -> (manager: Self)
        ensures
            manager.names().len() == names@.len(),
            forall|i: int| 0 <= i < names@.len() ==> manager.names()[i] == names@[i]@,
    {
        TextureManager { names }
    }

    /// Number of layers.
    pub fn len(&self) -> (n: usize)
        ensures
            n == self.names().len(),
    {
        self.names.len()
    }

    /// The layer called `name`, or the name back as an error when the atlas
    /// has no such layer.
    pub fn try_get_id(&self, name: String) -> (result: Result<TextureSlot, ConfigurationError>)
        ensures
            match slot_of(self.names(), name@) {
                Some(slot) => result == Ok::<TextureSlot, ConfigurationError>(slot),
                None => result matches Err(e) && e.name@ == name@,
            },
    {
        let mut i: usize = self.names.len();
        assert(self.names().take(i as int) =~= self.names());
        while i > 0
            invariant
                i <= self.names.len(),
                slot_of(self.names(), name@) == slot_of(self.names().take(i as int), name@),
            decreases i,
        {
            i -= 1;
            assert(self.names().take(i + 1).last() == self.names@[i as int]@);
            assert(self.names().take(i + 1).drop_last() =~= self.names().take(i as int));
            if self.names[i] == name {
                return Ok(i);
            }
        }
        Err(ConfigurationError { name })
    }

    /// The layer called `name`, which the atlas must hold. To ask for a name
    /// that the atlas lacks is a fault of the configuration; `try_get_id`
    /// tells whether it does.
    pub fn get_id(&self, name: String) -> (slot: TextureSlot)
        requires
            slot_of(self.names(), name@) is Some,
        ensures
            slot_of(self.names(), name@) == Some(slot),
    {
        match self.try_get_id(name) {
            Ok(slot) => slot,
            Err(_) => 0,
        }
    }
}

/// What a file of the texture directory is, judged by its name.
#[derive(Clone, Debug, PartialEq, Eq)]
pub enum TextureFile {
    /// A texture layer: the file name is the layer's name, a dot, and `png`.
    Layer(String),
    /// A file with another extension, which is no texture layer.
    Other,
    /// A file whose name has no dot, and so no extension to judge it by.
    NoExtension,
}

/// `i` is the place of the first dot in `name`.
pub open spec fn is_first_dot(name: Seq<char>, i: int) -> bool {
    &&& 0 <= i < name.len()
    &&& name[i] == '.'
    &&& forall|j: int| 0 <= j < i ==> name[j] != '.'
}

/// Judges a file of the texture directory by its name. The name is split at
/// its first dot: what comes before is the layer's name, what comes after is
/// the extension, and only the extension `png` makes a layer.
pub fn classify_texture_file(file_name: &str) -> (file: TextureFile)
    ensures
        match file {
            TextureFile::Layer(layer) => exists|i: int|
                {
                    &&& is_first_dot(file_name@, i)
                    &&& layer@ == file_name@.subrange(0, i)
                    &&& file_name@.subrange(i + 1, file_name@.len() as int) == "png"@
                },
            TextureFile::Other => exists|i: int|
                {
                    &&& is_first_dot(file_name@, i)
                    &&& file_name@.subrange(i + 1, file_name@.len() as int) != "png"@
                },
            TextureFile::NoExtension => forall|j: int|
                0 <= j < file_name@.len() ==> file_name@[j] != '.',
        },
{
    let len = file_name.unicode_len();
    let mut i: usize = 0;
    while i < len
        invariant
            i <= len,
            len == file_name@.len(),
            forall|j: int| 0 <= j < i ==> file_name@[j] != '.',
        decreases len - i,
    {
        if file_name.get_char(i) == '.' {
            let name = file_name.substring_char(0, i);
            let extension = file_name.substring_char(i + 1, len);
            assert(is_first_dot(file_name@, i as int));
            if extension.to_owned() == "png".to_owned() {
                return TextureFile::Layer(name.to_owned());
            } else {
                return TextureFile::Other;
            }
        }
        i += 1;
    }
    TextureFile::NoExtension
}

} // verus!
