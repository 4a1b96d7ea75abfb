//! Undoing the changes made during an exchange: the request sent to the
//! editor and its answer.

use vstd::prelude::*;

use vstd::string::StringExecFns;

verus! {

/// The path, under the editor's address, that undoes the changes of a session.
pub const UNDO_ENDPOINT_PATH: &'static str = "/undo_session_changes";

/// Asks the editor to undo the changes made during an exchange of a session,
/// back to a plan step where `index` is given.
pub struct UndoChangesMadeDuringExchangeRequest {
    exchange_id: String,
    session_id: String,
    index: Option<usize>,
    editor_url: String,
}

impl UndoChangesMadeDuringExchangeRequest {
    pub closed spec fn spec_exchange_id(&self) -> Seq<char> {
        self.exchange_id@
    }

    pub closed spec fn spec_session_id(&self) -> Seq<char> {
        self.session_id@
    }

    pub closed spec fn spec_index(&self) -> Option<usize> {
        self.index
    }

    pub closed spec fn spec_editor_url(&self) -> Seq<char> {
        self.editor_url@
    }

    pub fn new(exchange_id: String, session_id: String, index: Option<usize>, editor_url: String) -> (res:
        Self)
        ensures
            res.spec_exchange_id() == exchange_id@,
            res.spec_session_id() == session_id@,
            res.spec_index() == index,
            res.spec_editor_url() == editor_url@,
    {
        Self { exchange_id, session_id, index, editor_url }
    }

    pub fn exchange_id(&self) -> (res: &str)
        ensures
            res@ == self.spec_exchange_id(),
    {
        self.exchange_id.as_str()
    }

    pub fn session_id(&self) -> (res: &str)
        ensures
            res@ == self.spec_session_id(),
    {
        self.session_id.as_str()
    }

    pub fn index(&self) -> (res: Option<usize>)
        ensures
            res == self.spec_index(),
    {
        self.index
    }

    pub fn editor_url(&self) -> (res: &str)
        ensures
            res@ == self.spec_editor_url(),
    {
        self.editor_url.as_str()
    }

    /// The address the request is posted to: the editor's address followed by
    /// the undo path.
    pub fn endpoint_url(&self) -> (res: String)
        ensures
            res@ == self.spec_editor_url() + UNDO_ENDPOINT_PATH@,
    {
        let mut url = self.editor_url.clone();
        url.append(UNDO_ENDPOINT_PATH);
        url
    }
}

/// The editor's answer to an undo request.
pub struct UndoChangesMadeDuringExchangeRespnose {
    success: bool,
}

impl UndoChangesMadeDuringExchangeRespnose {
    pub closed spec fn spec_success(&self) -> bool {
        self.success
    }

    pub fn new(success: bool) -> (res: Self)
        ensures
            res.spec_success() == success,
    {
        Self { success }
    }

    /// Whether the editor undid the changes.
    pub fn is_success(&self) -> (res: bool)
        ensures
            res == self.spec_success(),
    {
        self.success
    }
}

} // verus!
