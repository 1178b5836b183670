//! The outbound response model: a status code, an ordered list of header
//! name/value pairs, and a raw body. The surrounding server runtime turns
//! this into its own response type verbatim.

use vstd::prelude::*;
use vstd::string::StringSliceAdditionalSpecFns;

verus! {

#[verifier::ext_equal]
pub ghost struct HttpResponseModel {
    pub status: u16,
    pub headers: Seq<(Seq<u8>, Seq<u8>)>,
    pub body: Seq<u8>,
}

pub struct HttpResponse {
    pub status: u16,
    pub headers: Vec<(Vec<u8>, Vec<u8>)>,
    pub body: Vec<u8>,
}

pub open spec fn headers_view(h: Seq<(Vec<u8>, Vec<u8>)>) -> Seq<(Seq<u8>, Seq<u8>)> {
    h.map_values(|p: (Vec<u8>, Vec<u8>)| (p.0@, p.1@))
}

impl View for HttpResponse {
    type V = HttpResponseModel;

    open spec fn view(&self) -> HttpResponseModel {
        HttpResponseModel {
            status: self.status,
            headers: headers_view(self.headers@),
            body: self.body@,
        }
    }
}

impl HttpResponse {
    /// A response with the given status and body and no headers yet.
    pub fn bare(status: u16, body: Vec<u8>) -> (r: HttpResponse)
        ensures
            r@.status == status,
            r@.headers == Seq::<(Seq<u8>, Seq<u8>)>::empty(),
            r@.body == body@,
    {
        let r = HttpResponse { status, headers: Vec::new(), body };
        proof {
            assert(r@.headers =~= Seq::<(Seq<u8>, Seq<u8>)>::empty());
        }
        r
    }

    /// Appends one header; header names are literal strings.
    pub fn push_header(&mut self, name: &str, value: Vec<u8>)
        ensures
            final(self)@.status == old(self)@.status,
            final(self)@.body == old(self)@.body,
            final(self)@.headers == old(self)@.headers.push((name.spec_bytes(), value@)),
    {
        let n = crate::bytestr::bytes_of_str(name);
        let ghost v = value@;
        self.headers.push((n, value));
        proof {
            assert(self@.headers =~= old(self)@.headers.push((name.spec_bytes(), v)));
        }
    }
}

} // verus!
