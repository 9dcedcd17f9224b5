//! Where uploaded images are stored.

use vstd::prelude::*;
use vstd::string::StringExecFns;
use crate::keys::{UUID_V4_BITS, UUID_V4_MASK, hyphenated, key_string, new_random_key};
use crate::text::{push_signed_decimal, signed_decimal};

verus! {

/// The directory all files are stored under.
pub open spec fn files_root() -> Seq<char> {
    "/mnt/files"@
}

/// What an image belongs to.
#[derive(Clone, Copy, Debug, PartialEq, Eq, Structural)]
pub enum ImageOwner {
    Profile,
    Location,
}

/// The path piece for an owner kind.
pub open spec fn owner_chunk(owner: ImageOwner) -> Seq<char> {
    match owner {
        ImageOwner::Profile => "profile"@,
        ImageOwner::Location => "location"@,
    }
}

/// The path of an image relative to the files root:
/// `{owner}/{id}/{key}.webp`.
pub open spec fn relative_image_path(id: i32, owner: ImageOwner, key: u128) -> Seq<char> {
    owner_chunk(owner) + "/"@ + signed_decimal(id as int) + "/"@ + hyphenated(key) + ".webp"@
}

impl ImageOwner {
    /// The path piece for this owner kind.
    pub fn as_url_chunk(self) -> (r: &'static str)
        ensures
            r@ == owner_chunk(self),
    {
        match self {
            ImageOwner::Profile => "profile",
            ImageOwner::Location => "location",
        }
    }
}

/// The relative and absolute path of an image with the given key, belonging
/// to the owner with the given id.
pub fn image_filepaths_with_key(id: i32, owner: ImageOwner, key: u128) -> (r: (String, String))
    ensures
        r.1@ == relative_image_path(id, owner, key),
        r.0@ == files_root() + "/"@ + relative_image_path(id, owner, key),
{
    let mut rel = String::from_str(owner.as_url_chunk());
    rel.append("/");
    push_signed_decimal(&mut rel, id as i64);
    rel.append("/");
    let k = key_string(key);
    rel.append(k.as_str());
    rel.append(".webp");
    let mut abs = String::from_str("/mnt/files");
    abs.append("/");
    abs.append(rel.as_str());
    (abs, rel)
}

/// Generate both an absolute and a relative path for a new image, under a
/// fresh random key (a version 4 UUID): the absolute path is where the file
/// is written, the relative one is what the API hands out.
pub fn generate_image_filepaths(id: i32, owner: ImageOwner) -> (r: (String, String))
    ensures
        exists|key: u128|
            #![trigger relative_image_path(id, owner, key)]
            key & UUID_V4_MASK == UUID_V4_BITS && r.1@ == relative_image_path(id, owner, key) && r.0@ == files_root()
                + "/"@ + relative_image_path(id, owner, key),
{
    let key = new_random_key();
    image_filepaths_with_key(id, owner, key)
}

} // verus!
