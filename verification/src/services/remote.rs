//! What a service knows of a remote service before it connects to it.
use vstd::prelude::*;

verus! {

/// The identity and address of a remote service.
#[derive(Debug, PartialEq, Eq)]
pub struct RemoteInfo {
    id: u64,
    connection_string: String,
}

/// The model of a remote's description: its id and its address's text.
pub type RemoteInfoModel = (u64, Seq<char>);

impl View for RemoteInfo {
    type V = RemoteInfoModel;

    closed spec fn view(&self) -> RemoteInfoModel {
        (self.id, self.connection_string@)
    }
}

impl RemoteInfo {
    /// The remote numbered `id` that listens at `connection_string`.
    pub fn new(id: u64, connection_string: &str) -> (r: Self)
        ensures
            r@ == (id, connection_string@),
    {
        Self { id, connection_string: connection_string.to_owned() }
    }

    /// The remote's id.
    pub fn id(&self) -> (r: u64)
        ensures
            r == self@.0,
    {
        self.id
    }

    /// The address the remote listens at.
    pub fn connection_string(&self) -> (r: &str)
        ensures
            r@ == self@.1,
    {
        self.connection_string.as_str()
    }
}

impl Clone for RemoteInfo {
    fn clone(&self) -> (r: Self)
        ensures
            r@ == self@,
    {
        RemoteInfo { id: self.id, connection_string: self.connection_string.clone() }
    }
}

} // verus!
