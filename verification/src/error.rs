use vstd::prelude::*;
use vstd::string::*;

verus! {

/// What can go wrong between this client and the server.
#[derive(Debug, PartialEq, Eq)]
pub enum MusingError {
    /// A reply, or a part of it, is not a JSON object.
    ExpectedObject,
    /// A song has no numeric `id`.
    ExpectedId,
    /// A song has no textual `path`.
    ExpectedPath,
    /// A playback state that is none of the three known ones.
    UnknownPlaybackState,
    /// A playback mode that is none of the three known ones.
    UnknownPlaybackMode,
    /// The reply to a metadata request holds no list of metadata.
    NoMetadata,
    /// The reply to a selection holds no list of values.
    NoSongs,
    /// The reply to an update does not report success.
    UpdateFailed,
    /// The server answered with an error; the text is its reason, as JSON.
    Server(String),
    /// A message is longer than its length prefix can say.
    TooLong,
    /// The bytes of a message are not UTF-8.
    InvalidText,
    /// The text of a message is not JSON.
    InvalidJson,
}

/// The mathematical value of a [`MusingError`].
pub enum MusingErrorView {
    ExpectedObject,
    ExpectedId,
    ExpectedPath,
    UnknownPlaybackState,
    UnknownPlaybackMode,
    NoMetadata,
    NoSongs,
    UpdateFailed,
    Server(Seq<char>),
    TooLong,
    InvalidText,
    InvalidJson,
}

impl View for MusingError {
    type V = MusingErrorView;

    open spec fn view(&self) -> MusingErrorView {
        match self {
            MusingError::ExpectedObject => MusingErrorView::ExpectedObject,
            MusingError::ExpectedId => MusingErrorView::ExpectedId,
            MusingError::ExpectedPath => MusingErrorView::ExpectedPath,
            MusingError::UnknownPlaybackState => MusingErrorView::UnknownPlaybackState,
            MusingError::UnknownPlaybackMode => MusingErrorView::UnknownPlaybackMode,
            MusingError::NoMetadata => MusingErrorView::NoMetadata,
            MusingError::NoSongs => MusingErrorView::NoSongs,
            MusingError::UpdateFailed => MusingErrorView::UpdateFailed,
            MusingError::Server(reason) => MusingErrorView::Server(reason@),
            MusingError::TooLong => MusingErrorView::TooLong,
            MusingError::InvalidText => MusingErrorView::InvalidText,
            MusingError::InvalidJson => MusingErrorView::InvalidJson,
        }
    }
}

impl MusingErrorView {
    /// Whether the connection cannot go on after this error: the bytes on the
    /// wire can no longer be told apart into messages.
    pub open spec fn fatal(self) -> bool {
        self is TooLong || self is InvalidText || self is InvalidJson
    }

    /// The text shown to the user.
    pub open spec fn text(self) -> Seq<char> {
        match self {
            MusingErrorView::ExpectedObject => "expected a JSON object"@,
            MusingErrorView::ExpectedId => "expected key `id`"@,
            MusingErrorView::ExpectedPath => "expected key `path`"@,
            MusingErrorView::UnknownPlaybackState => "unknown playback state"@,
            MusingErrorView::UnknownPlaybackMode => "unknown playback mode"@,
            MusingErrorView::NoMetadata => "could not fetch metadata"@,
            MusingErrorView::NoSongs => "could not select songs"@,
            MusingErrorView::UpdateFailed => "could not update the database"@,
            MusingErrorView::Server(reason) => "musing error: "@ + reason,
            MusingErrorView::TooLong => "message too long"@,
            MusingErrorView::InvalidText => "message is not valid UTF-8"@,
            MusingErrorView::InvalidJson => "message is not valid JSON"@,
        }
    }
}

impl MusingError {
    pub fn is_fatal(&self) -> (r: bool)
        ensures
            r == self@.fatal(),
    {
        match self {
            MusingError::TooLong | MusingError::InvalidText | MusingError::InvalidJson => true,
            _ => false,
        }
    }

    pub fn message(&self) -> (r: String)
        ensures
            r@ == self@.text(),
    {
        match self {
            MusingError::ExpectedObject => "expected a JSON object".to_string(),
            MusingError::ExpectedId => "expected key `id`".to_string(),
            MusingError::ExpectedPath => "expected key `path`".to_string(),
            MusingError::UnknownPlaybackState => "unknown playback state".to_string(),
            MusingError::UnknownPlaybackMode => "unknown playback mode".to_string(),
            MusingError::NoMetadata => "could not fetch metadata".to_string(),
            MusingError::NoSongs => "could not select songs".to_string(),
            MusingError::UpdateFailed => "could not update the database".to_string(),
            MusingError::Server(reason) => "musing error: ".to_string().concat(reason.as_str()),
            MusingError::TooLong => "message too long".to_string(),
            MusingError::InvalidText => "message is not valid UTF-8".to_string(),
            MusingError::InvalidJson => "message is not valid JSON".to_string(),
        }
    }
}

} // verus!
