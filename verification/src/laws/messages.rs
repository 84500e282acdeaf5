//! What a user is told where something cannot be done.

use vstd::prelude::*;
use vstd::string::*;
use crate::gem_text::GemTextError;
use crate::item_text::ItemTextError;
use crate::number::decimal;
use crate::passive_tree::TreeError;
use crate::pob::PobError;
use crate::sheet::SheetError;

verus! {

/// Why a text is no item, no gem or no sheet is told in the words of each.
pub proof fn captures_are_refused_in_words(item: ItemTextError, gem: GemTextError, sheet: SheetError)
    ensures
        item.message_text() == match item {
            ItemTextError::NoText => "copy an item in Path of Exile and paste its text here"@,
            ItemTextError::NoRarity => "this does not look like Path of Exile item text (missing Rarity)"@,
            ItemTextError::Pattern => "an item pattern is invalid"@,
        },
        gem.message_text() == match gem {
            GemTextError::NoText => "copy a skill or support gem in Path of Exile first"@,
            GemTextError::NoRarity => "this does not look like copied Path of Exile gem text"@,
            GemTextError::NoName => "gem name is missing"@,
        },
        sheet.message_text() == match sheet {
            SheetError::Pattern => "a character-sheet pattern is invalid"@,
            SheetError::Nothing => "no supported character-sheet values were recognized"@,
        },
{
}

/// Why no build is imported is told in the words of each reason.
pub proof fn imports_are_refused_in_words(error: PobError)
    ensures
        error.message_text() == match error {
            PobError::Empty => "paste a Path of Building export code or select an XML file"@,
            PobError::FileTooLarge => "Path of Building file is larger than 16 MiB"@,
            PobError::TooLarge => "Path of Building input is larger than 16 MiB"@,
            PobError::WebLink => "web build links are not downloaded; paste the Path of Building export code instead"@,
            PobError::NotExportCode => "the pasted text is not a valid Path of Building export code"@,
            PobError::NotDecompressed => "the export code could not be decompressed"@,
            PobError::InvalidXml => "invalid Path of Building XML"@,
            PobError::InvalidAttribute => "invalid XML attribute"@,
            PobError::UnreadableAttribute => "unreadable XML attribute"@,
            PobError::InvalidItemText => "invalid item text"@,
            PobError::NotPathOfBuilding => "XML is not a Path of Building document"@,
        },
{
}

/// Why no passive tree is read is told in the words of each reason.
pub proof fn trees_are_refused_in_words(error: TreeError)
    ensures
        error.message_text() == match error {
            TreeError::InvalidUrl => "invalid passive-tree URL"@,
            TreeError::NotOfficial => "use an official Path of Exile passive skill tree URL"@,
            TreeError::NoCode => "passive-tree URL has no encoded tree"@,
            TreeError::NotBase64 => "passive-tree data is not valid base64url"@,
            TreeError::Incomplete => "passive-tree data is incomplete"@,
            TreeError::NodesIncomplete => "passive-tree node data is incomplete"@,
            TreeError::MasteriesIncomplete => "passive-tree mastery data is incomplete"@,
            TreeError::UnsupportedVersion(version) => "unsupported passive-tree format version "@
                + decimal(version as nat),
        },
{
}

} // verus!
