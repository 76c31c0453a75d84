use vstd::prelude::*;

verus! {

/// The bytes that the standard alphabet of Base64, with padding, stands for,
/// or `None` where the text is not Base64.
pub uninterp spec fn base64_decode(text: Seq<char>) -> Option<Seq<u8>>;

/// Decodes Base64 with `Engine::decode` of `base64`, on its standard engine.
#[verifier::external_body]
fn decode(text: &str) -> (r: Option<Vec<u8>>)
    ensures
        match r {
            Some(bytes) => base64_decode(text@) == Some(bytes@),
            None => base64_decode(text@).is_none(),
        },
{
    base64::Engine::decode(&base64::prelude::BASE64_STANDARD, text.as_bytes()).ok()
}

/// Whether cover art is shown.
#[derive(Clone, Copy, Debug, PartialEq, Eq, Structural)]
pub struct CoverArtState {
    pub draw: bool,
}

impl CoverArtState {
    /// No cover art is shown at the start.
    pub fn try_new() -> (r: CoverArtState)
        ensures
            !r.draw,
    {
        CoverArtState { draw: false }
    }

    /// Takes new cover art: the bytes of the picture to read and show, where
    /// there is one. Without cover art nothing is shown any more. With cover
    /// art, what is shown stays until the picture was read.
    pub fn replace_art(&mut self, new_data: Option<&str>) -> (r: Option<Vec<u8>>)
        ensures
            final(self).draw == (new_data.is_some() && old(self).draw),
            match r {
                Some(bytes) => new_data matches Some(text) && base64_decode(text@) == Some(bytes@),
                None => new_data matches Some(text) ==> base64_decode(text@).is_none(),
            },
    {
        match new_data {
            Some(new_data) => decode(new_data),
            None => {
                self.draw = false;
                None
            },
        }
    }

    /// The picture was read and takes the place of the one before: it is
    /// shown.
    pub fn art_replaced(&mut self)
        ensures
            final(self).draw,
    {
        self.draw = true;
    }
}

} // verus!
