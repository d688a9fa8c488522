//! The request forms, one per handler, with the field names the wire
//! protocol uses.

use vstd::prelude::*;

verus! {

/// The level-search request. `search_type` selects the retrieval strategy;
/// the toggles drive the generic filter. `search` carries the free-text or
/// numeric search string.
#[allow(non_camel_case_types)]
#[allow(non_snake_case)]
pub struct getGJLevels21 {
    pub accountID: i32,
    pub binaryVersion: i16,
    pub coins: bool,
    pub completedLevels: String,
    pub customSong: bool,
    pub demonFilter: i16,
    pub diff: Vec<String>,
    pub epic: bool,
    pub featured: bool,
    pub followed: String,
    pub gameVersion: i16,
    pub gauntlet: i32,
    pub gjp2: String,
    pub legendary: bool,
    pub len: String,
    pub local: bool,
    pub mythic: bool,
    pub noStar: bool,
    pub onlyCompleted: bool,
    pub original: bool,
    pub page: i32,
    pub search: String,
    pub search_type: i16,
    pub secret: String,
    pub song: i32,
    pub star: bool,
    pub total: i32,
    pub twoPlayer: bool,
    pub uncompleted: bool,
}

#[allow(non_camel_case_types)]
#[allow(non_snake_case)]
pub struct deleteGJLevelList {
    pub accountID: i32,
    pub listID: i32,
    pub gjp2: String,
    pub secret: String,
}

#[allow(non_camel_case_types)]
#[allow(non_snake_case)]
pub struct getGJUserList20 {
    pub accountID: i32,
    pub gjp2: String,
    pub list_type: u8,
    pub secret: String,
}

#[allow(non_camel_case_types)]
#[allow(non_snake_case)]
pub struct getGJUsers20 {
    pub gjp2: String,
    pub search: String,
    pub page: i32,
    pub total: i32,
    pub accountID: i32,
    pub gameVersion: i16,
    pub binaryVersion: i16,
    pub udid: String,
    pub uuid: String,
    pub secret: String,
}

/// The account entity as the handlers see it; its persistence lives wholly
/// in storage, so no field crosses into this core.
pub struct User {}

/// The message-deletion form: either one `message_id` or a comma-separated
/// `message_ids` set; `is_sender` says which side of the conversation.
pub struct DeleteForm {
    pub user_id: i32,
    pub gjp2: String,
    pub message_ids: String,
    pub message_id: i32,
    pub is_sender: i16,
    pub game_version: i16,
    pub binary_version: i16,
    pub secret: String,
    pub uuid: String,
    pub udid: String,
}

/// The post-listing form.
pub struct GetForm {
    pub user_id: i32,
    pub gjp2: String,
    pub page: i32,
    pub total: i32,
    pub game_version: i16,
    pub binary_version: i16,
    pub secret: String,
    pub uuid: String,
    pub udid: String,
}

} // verus!
