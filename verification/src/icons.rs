//! Icons as text, and the table of icons that say nothing about a file.
//!
//! An icon image travels as the Base64 text of its bytes. The table lists
//! the images that the system shows for any file of a kind. An executable
//! with such an image does not stand for a candidate. One entry of the
//! table is the image that a candidate gets when no better one is found.

use base64::Engine;
use vstd::prelude::*;
use vstd::string::StringExecFns;
use crate::text::{chars_of, texts_of};

verus! {

/// The text that the standard Base64 alphabet, with padding, gives for
/// `bytes`.
pub uninterp spec fn base64_standard(bytes: Seq<u8>) -> Seq<char>;

/// Whether `len` bytes are few enough for their Base64 text to be held.
pub open spec fn encodable(len: nat) -> bool {
    len / 3 * 4 + 4 <= isize::MAX
}

/// `Engine::encode` of `base64`, called on `general_purpose::STANDARD`: the
/// text depends on the bytes alone. The call panics where the length of
/// the text cannot be held, which `requires` rules out.
#[verifier::external_body]
fn base64_encode(raw: &Vec<u8>) -> (text: String)
    requires
        encodable(raw@.len()),
    ensures
        text@ == base64_standard(raw@),
{
    base64::engine::general_purpose::STANDARD.encode(raw)
}

/// Tests `encodable`.
pub fn can_encode(len: usize) -> (b: bool)
    ensures
        b == encodable(len as nat),
{
    len / 3 <= (isize::MAX as usize - 4) / 4
}

/// The image `raw` as text: `base64_standard` of its bytes.
pub fn encode_icon(raw: &Vec<u8>) -> (text: String)
    requires
        encodable(raw@.len()),
    ensures
        text@ == base64_standard(raw@),
{
    base64_encode(raw)
}

/// The place in the table of the icon that stands in where none is found.
pub const DEFAULT_ICON: usize = 3;

/// The side of an icon image, in pixels.
pub const ICON_SIZE: i32 = 32;

/// `s` without its quotation marks.
pub open spec fn without_quotes(s: Seq<char>) -> Seq<char> {
    s.filter(|c: char| c != '"')
}

/// The icons that say nothing about a file, each as Base64 text. A table
/// has an entry at `DEFAULT_ICON`.
#[derive(Debug)]
pub struct IconTable {
    icons: Vec<String>,
}

impl IconTable {
    #[verifier::type_invariant]
    spec fn well_formed(&self) -> bool {
        self.icons.len() > DEFAULT_ICON
    }

    /// The entries of the table, in order.
    pub closed spec fn entries(&self) -> Seq<Seq<char>> {
        texts_of(self.icons@)
    }

    /// Whether `icon` is one of the entries, character for character.
    pub open spec fn is_generic(&self, icon: Seq<char>) -> bool {
        self.entries().contains(icon)
    }

    /// The icon that stands in where none is found: the entry at
    /// `DEFAULT_ICON`, without quotation marks.
    pub open spec fn default_icon(&self) -> Seq<char> {
        without_quotes(self.entries()[DEFAULT_ICON as int])
    }

    /// The table of `icons`, if it has an entry at `DEFAULT_ICON`.
    pub fn new(icons: Vec<String>) -> (table: Option<IconTable>)
        ensures
            table is Some <==> icons.len() > DEFAULT_ICON,
            table matches Some(t) ==> t.entries() == texts_of(icons@),
    {
        if icons.len() > DEFAULT_ICON {
            Some(IconTable { icons })
        } else {
            None
        }
    }

    /// The number of entries.
    pub fn len(&self) -> (n: usize)
        ensures
            n == self.entries().len(),
            n > DEFAULT_ICON,
    {
        proof {
            use_type_invariant(self);
        }
        self.icons.len()
    }

    /// Tests `is_generic`.
    pub fn generic(&self, icon: &str) -> (b: bool)
        ensures
            b == self.is_generic(icon@),
    {
        let wanted = String::from_str(icon);
        let mut k: usize = 0;
        while k < self.icons.len()
            invariant
                k <= self.icons.len(),
                wanted@ == icon@,
                forall|j: int| 0 <= j < k ==> self.entries()[j] != icon@,
            decreases self.icons.len() - k,
        {
            if self.icons[k] == wanted {
                assert(self.entries()[k as int] == icon@);
                return true;
            }
            k += 1;
        }
        false
    }

    /// Computes `default_icon`.
    pub fn fallback(&self) -> (icon: String)
        ensures
            icon@ == self.default_icon(),
    {
        proof {
            use_type_invariant(self);
        }
        let entry = chars_of(self.icons[DEFAULT_ICON].as_str());
        let ghost keep = |c: char| c != '"';
        let mut icon = String::new();
        let mut i: usize = 0;
        proof {
            reveal(Seq::filter);
            assert(entry@.take(0) == Seq::<char>::empty());
        }
        while i < entry.len()
            invariant
                i <= entry.len(),
                keep == |c: char| c != '"',
                icon@ == entry@.take(i as int).filter(keep),
            decreases entry.len() - i,
        {
            proof {
                reveal(Seq::filter);
                assert(entry@.take(i + 1).drop_last() == entry@.take(i as int));
            }
            if entry[i] != '"' {
                icon.push(entry[i]);
            }
            i += 1;
        }
        assert(entry@.take(i as int) == entry@);
        icon
    }
}

} // verus!
