//! Identifiers of the user interface strings of OpenSC.
use vstd::prelude::*;

verus! {

/// The user interface strings that OpenSC can be asked for.
#[derive(Debug, Copy, Clone)]
pub enum ui_str {
    MD_PINPAD_DLG_TITLE,
    MD_PINPAD_DLG_MAIN,
    MD_PINPAD_DLG_CONTENT_USER,
    MD_PINPAD_DLG_CONTENT_ADMIN,
    MD_PINPAD_DLG_EXPANDED,
    MD_PINPAD_DLG_CONTROL_COLLAPSED,
    MD_PINPAD_DLG_CONTROL_EXPANDED,
    MD_PINPAD_DLG_ICON,
    MD_PINPAD_DLG_CANCEL,
    NOTIFY_CARD_INSERTED,
    NOTIFY_CARD_INSERTED_TEXT,
    NOTIFY_CARD_REMOVED,
    NOTIFY_CARD_REMOVED_TEXT,
    NOTIFY_PIN_GOOD,
    NOTIFY_PIN_GOOD_TEXT,
    NOTIFY_PIN_BAD,
    NOTIFY_PIN_BAD_TEXT,
    MD_PINPAD_DLG_CONTENT_USER_SIGN,
    NOTIFY_EXIT,
    MD_PINPAD_DLG_VERIFICATION,
}

} // verus!
