//! The records the lookup service returns.
use vstd::prelude::*;

verus! {

/// One address that matches a zip code.
#[derive(Clone, Debug, PartialEq, Eq)]
pub struct Detail {
    pub zipcode: String,
    pub prefcode: String,
    /// The prefecture.
    pub address1: String,
    /// The city.
    pub address2: String,
    /// The district.
    pub address3: String,
    /// The reading of `address1` in kana.
    pub kana1: String,
    /// The reading of `address2` in kana.
    pub kana2: String,
    /// The reading of `address3` in kana.
    pub kana3: String,
}

/// The fields of a [`Detail`] as character sequences.
pub struct DetailView {
    pub zipcode: Seq<char>,
    pub prefcode: Seq<char>,
    pub address1: Seq<char>,
    pub address2: Seq<char>,
    pub address3: Seq<char>,
    pub kana1: Seq<char>,
    pub kana2: Seq<char>,
    pub kana3: Seq<char>,
}

impl View for Detail {
    type V = DetailView;

    open spec fn view(&self) -> DetailView {
        DetailView {
            zipcode: self.zipcode@,
            prefcode: self.prefcode@,
            address1: self.address1@,
            address2: self.address2@,
            address3: self.address3@,
            kana1: self.kana1@,
            kana2: self.kana2@,
            kana3: self.kana3@,
        }
    }
}

/// The reply to one lookup.
#[derive(Clone, Debug, PartialEq, Eq)]
pub struct Address {
    /// The status code the service reports; it is carried, not interpreted.
    pub status: i32,
    /// A message, which the service sends with an error.
    pub message: Option<String>,
    /// The matching addresses, in the order the service gave them.
    pub results: Vec<Detail>,
}

/// The fields of an [`Address`] as mathematical values.
pub struct AddressView {
    pub status: int,
    pub message: Option<Seq<char>>,
    pub results: Seq<DetailView>,
}

/// The view of an optional string.
pub open spec fn opt_text_view(s: Option<String>) -> Option<Seq<char>> {
    match s {
        Some(t) => Some(t@),
        None => None,
    }
}

/// The views of a sequence of details.
pub open spec fn details_view(ds: Seq<Detail>) -> Seq<DetailView> {
    ds.map_values(|d: Detail| d@)
}

impl View for Address {
    type V = AddressView;

    open spec fn view(&self) -> AddressView {
        AddressView {
            status: self.status as int,
            message: opt_text_view(self.message),
            results: details_view(self.results@),
        }
    }
}

} // verus!
