//! Display-name derivation from a contact's structured fields.

use vstd::prelude::*;
use vstd::string::*;

use crate::text::is_space_char;
use crate::text::lemma_trim_ends;
use crate::text::lemma_trim_identity;
use crate::text::trim;
use crate::text::trim_spec;

verus! {

/// One contact's fields, as marshaled from the native record. A record
/// exists only long enough to be reduced to a display name.
#[derive(Debug, PartialEq, Eq, Clone)]
pub struct ContactRecord {
    pub given_name: String,
    pub family_name: String,
    pub organization_name: String,
}

/// The derived display name: the trimmed given and family names joined by
/// one space when both are present, the present one when only one is, the
/// trimmed organization name when neither is; the whole trimmed once more.
pub open spec fn display_name_spec(g: Seq<char>, f: Seq<char>, o: Seq<char>) -> Seq<char> {
    let tg = trim_spec(g);
    let tf = trim_spec(f);
    let full = if tg.len() > 0 && tf.len() > 0 {
        tg + seq![' '] + tf
    } else if tg.len() > 0 {
        tg
    } else if tf.len() > 0 {
        tf
    } else {
        trim_spec(o)
    };
    trim_spec(full)
}

impl ContactRecord {
    /// This contact's derived display name.
    pub open spec fn display_name(&self) -> Seq<char> {
        display_name_spec(self.given_name@, self.family_name@, self.organization_name@)
    }

    /// Whether this contact contributes an entry to the name list.
    pub open spec fn contributes(&self) -> bool {
        self.display_name().len() > 0
    }
}

/// Derives the display name of one contact; a contact whose derived name is
/// empty contributes nothing.
pub fn derive_display_name(contact: &ContactRecord) -> (r: Option<String>)
    ensures
        contact.contributes() ==> (r matches Some(name) && name@ == contact.display_name()),
        !contact.contributes() ==> r is None,
{
    let tg = trim(contact.given_name.as_str());
    let tf = trim(contact.family_name.as_str());
    let full: String = if tg.as_str().unicode_len() > 0 && tf.as_str().unicode_len() > 0 {
        proof {
            reveal_strlit(" ");
            assert(" "@ =~= seq![' ']);
        }
        tg.concat(" ").concat(tf.as_str())
    } else if tg.as_str().unicode_len() > 0 {
        tg
    } else if tf.as_str().unicode_len() > 0 {
        tf
    } else {
        trim(contact.organization_name.as_str())
    };
    let trimmed = trim(full.as_str());
    if trimmed.as_str().unicode_len() == 0 {
        Option::None
    } else {
        Option::Some(trimmed)
    }
}

/// When both the given and the family name are nonempty once trimmed, the
/// derived name is the trimmed given name, a single space, and the trimmed
/// family name.
pub proof fn lemma_display_name_joins(g: Seq<char>, f: Seq<char>, o: Seq<char>)
    requires
        trim_spec(g).len() > 0,
        trim_spec(f).len() > 0,
    ensures
        display_name_spec(g, f, o) =~= trim_spec(g) + seq![' '] + trim_spec(f),
{
    let tg = trim_spec(g);
    let tf = trim_spec(f);
    lemma_trim_ends(g);
    lemma_trim_ends(f);
    let full = tg + seq![' '] + tf;
    assert(full[0] == tg[0]);
    assert(full[full.len() - 1] == tf[tf.len() - 1]);
    assert(!is_space_char(full[0]));
    assert(!is_space_char(full[full.len() - 1]));
    lemma_trim_identity(full);
}

/// When exactly one of the given and family names is nonempty once trimmed,
/// the derived name is that field, trimmed.
pub proof fn lemma_display_name_single_field(g: Seq<char>, f: Seq<char>, o: Seq<char>)
    requires
        trim_spec(g).len() > 0 || trim_spec(f).len() > 0,
        trim_spec(g).len() == 0 || trim_spec(f).len() == 0,
    ensures
        display_name_spec(g, f, o) =~= if trim_spec(g).len() > 0 {
            trim_spec(g)
        } else {
            trim_spec(f)
        },
{
    lemma_trim_ends(g);
    lemma_trim_ends(f);
}

/// A contact whose three fields are all empty contributes no entry.
pub proof fn lemma_empty_contact_contributes_nothing(c: ContactRecord)
    requires
        c.given_name@.len() == 0,
        c.family_name@.len() == 0,
        c.organization_name@.len() == 0,
    ensures
        !c.contributes(),
{
    assert(c.given_name@ =~= Seq::<char>::empty());
    assert(c.family_name@ =~= Seq::<char>::empty());
    assert(c.organization_name@ =~= Seq::<char>::empty());
    lemma_trim_ends(Seq::<char>::empty());
    assert(trim_spec(Seq::<char>::empty()) =~= Seq::<char>::empty());
}

} // verus!
