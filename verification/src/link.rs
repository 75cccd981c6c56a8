//! Link records: the edges of the network as they are loaded.

use vstd::prelude::*;
use vstd::utf8::encode_utf8;

verus! {

/// One link record: the payload of an edge together with the ids of the two
/// nodes it joins.
#[derive(Debug)]
pub struct Link {
    pub link_id: String,
    pub source_node: String,
    pub destination_node: String,
    pub capacity: u8,
    pub weight: u8,
}

/// The mathematical value of a [`Link`].
pub struct LinkView {
    pub link_id: Seq<char>,
    pub source_node: Seq<char>,
    pub destination_node: Seq<char>,
    pub capacity: u8,
    pub weight: u8,
}

impl View for Link {
    type V = LinkView;

    open spec fn view(&self) -> LinkView {
        LinkView {
            link_id: self.link_id@,
            source_node: self.source_node@,
            destination_node: self.destination_node@,
            capacity: self.capacity,
            weight: self.weight,
        }
    }
}

impl Link {
    /// On which side of its link the label is drawn: `Some(true)` where the
    /// first byte of the link id is even, `Some(false)` where it is odd, and
    /// `None` for an empty id.
    pub fn label_side(&self) -> (side: Option<bool>)
        ensures
            match side {
                Some(even) => encode_utf8(self.link_id@).len() > 0 && even == (encode_utf8(
                    self.link_id@,
                )[0] % 2 == 0),
                None => encode_utf8(self.link_id@).len() == 0,
            },
    {
        let bytes = self.link_id.as_str().as_bytes();
        if bytes.len() == 0 {
            None
        } else {
            Some(bytes[0] % 2 == 0)
        }
    }
}

impl Clone for Link {
    fn clone(&self) -> (r: Self)
        ensures
            r@ == self@,
    {
        Link {
            link_id: self.link_id.clone(),
            source_node: self.source_node.clone(),
            destination_node: self.destination_node.clone(),
            capacity: self.capacity,
            weight: self.weight,
        }
    }
}

} // verus!
