use vstd::prelude::*;

use crate::strutil::{ci_eq_seq, str_ci_eq, str_eq};

verus! {

/// An HTTP request method.
#[derive(PartialEq, Eq, Structural, Clone, Copy, Debug)]
pub enum Method {
    Get,
    Head,
    Post,
    Put,
    Delete,
    Connect,
    Options,
    Trace,
    Patch,
}

/// An HTTP protocol version.
#[derive(PartialEq, Eq, Structural, Clone, Copy, Debug)]
pub enum Version {
    Http09,
    Http10,
    Http11,
    H2,
    H3,
}

impl Method {
    /// The method a configuration names, by its upper-case wire name; any
    /// other name is refused.
    pub fn from_name(s: &str) -> (r: Option<Method>)
        ensures
            s@ == "GET"@ ==> r == Some(Method::Get),
            s@ == "HEAD"@ ==> r == Some(Method::Head),
            s@ == "POST"@ ==> r == Some(Method::Post),
            s@ == "PUT"@ ==> r == Some(Method::Put),
            s@ == "DELETE"@ ==> r == Some(Method::Delete),
            s@ == "CONNECT"@ ==> r == Some(Method::Connect),
            s@ == "OPTIONS"@ ==> r == Some(Method::Options),
            s@ == "TRACE"@ ==> r == Some(Method::Trace),
            s@ == "PATCH"@ ==> r == Some(Method::Patch),
            r is None <==> (s@ != "GET"@ && s@ != "HEAD"@ && s@ != "POST"@ && s@ != "PUT"@ && s@
                != "DELETE"@ && s@ != "CONNECT"@ && s@ != "OPTIONS"@ && s@ != "TRACE"@ && s@
                != "PATCH"@),
    {
        proof {
            reveal_strlit("GET");
            reveal_strlit("HEAD");
            reveal_strlit("POST");
            reveal_strlit("PUT");
            reveal_strlit("DELETE");
            reveal_strlit("CONNECT");
            reveal_strlit("OPTIONS");
            reveal_strlit("TRACE");
            reveal_strlit("PATCH");
            assert("GET"@.len() == 3);
            assert("HEAD"@.len() == 4);
            assert("POST"@.len() == 4);
            assert("PUT"@.len() == 3);
            assert("DELETE"@.len() == 6);
            assert("CONNECT"@.len() == 7);
            assert("OPTIONS"@.len() == 7);
            assert("TRACE"@.len() == 5);
            assert("PATCH"@.len() == 5);
            assert("GET"@[0] != "PUT"@[0]);
            assert("HEAD"@[0] != "POST"@[0]);
            assert("TRACE"@[0] != "PATCH"@[0]);
            assert("CONNECT"@[0] != "OPTIONS"@[0]);
            assert("GET"@ != "PUT"@);
            assert("HEAD"@ != "POST"@);
            assert("TRACE"@ != "PATCH"@);
            assert("CONNECT"@ != "OPTIONS"@);
        }
        if str_eq(s, "GET") {
            Some(Method::Get)
        } else if str_eq(s, "HEAD") {
            Some(Method::Head)
        } else if str_eq(s, "POST") {
            Some(Method::Post)
        } else if str_eq(s, "PUT") {
            Some(Method::Put)
        } else if str_eq(s, "DELETE") {
            Some(Method::Delete)
        } else if str_eq(s, "CONNECT") {
            Some(Method::Connect)
        } else if str_eq(s, "OPTIONS") {
            Some(Method::Options)
        } else if str_eq(s, "TRACE") {
            Some(Method::Trace)
        } else if str_eq(s, "PATCH") {
            Some(Method::Patch)
        } else {
            None
        }
    }
}

/// One header: a name (compared case-insensitively) and its text value.
pub struct Header {
    pub name: String,
    pub value: String,
}

/// The head of a client request, as the handler reads it.
pub struct ReqHead {
    pub method: Method,
    /// The full request target, used as the cache key.
    pub uri: String,
    /// The path component of the target, the subject of rule matching.
    pub path: String,
    /// The scheme text of the target if it carried one, else empty.
    pub scheme: String,
    pub version: Version,
    pub headers: Vec<Header>,
}

/// A response whose body has been fully collected into memory.
pub struct BufferedResponse {
    pub status: u16,
    pub version: Version,
    pub headers: Vec<Header>,
    pub body: Vec<u8>,
}

/// The value of the first header whose name equals `name` up to ASCII case.
pub open spec fn first_header_value(headers: Seq<Header>, name: Seq<char>) -> Option<Seq<char>>
    decreases headers.len(),
{
    if headers.len() == 0 {
        None
    } else if ci_eq_seq(headers[0].name@, name) {
        Some(headers[0].value@)
    } else {
        first_header_value(headers.drop_first(), name)
    }
}

fn get_header_from<'a>(headers: &'a Vec<Header>, name: &str, from: usize) -> (r: Option<
    &'a String,
>)
    requires
        from <= headers@.len(),
    ensures
        match r {
            Some(v) => first_header_value(headers@.skip(from as int), name@) == Some(v@),
            None => first_header_value(headers@.skip(from as int), name@) is None,
        },
    decreases headers@.len() - from,
{
    if from == headers.len() {
        proof {
            assert(headers@.skip(from as int) =~= Seq::<Header>::empty());
        }
        None
    } else {
        proof {
            assert(headers@.skip(from as int)[0] == headers@[from as int]);
            assert(headers@.skip(from as int).drop_first() =~= headers@.skip(from as int + 1));
        }
        if str_ci_eq(headers[from].name.as_str(), name) {
            Some(&headers[from].value)
        } else {
            get_header_from(headers, name, from + 1)
        }
    }
}

/// Looks up the first header named `name`, ignoring ASCII case.
pub fn get_header<'a>(headers: &'a Vec<Header>, name: &str) -> (r: Option<&'a String>)
    ensures
        match r {
            Some(v) => first_header_value(headers@, name@) == Some(v@),
            None => first_header_value(headers@, name@) is None,
        },
{
    proof {
        assert(headers@.skip(0) =~= headers@);
    }
    get_header_from(headers, name, 0)
}

/// Whether `methods` lists `m`.
pub fn methods_contain(methods: &Vec<Method>, m: Method) -> (r: bool)
    ensures
        r == methods@.contains(m),
{
    let mut i: usize = 0;
    while i < methods.len()
        invariant
            i <= methods@.len(),
            forall|j: int| 0 <= j < i ==> methods@[j] != m,
        decreases methods@.len() - i,
    {
        if methods[i] == m {
            return true;
        }
        i += 1;
    }
    false
}

impl Header {
    /// An equal copy of this header.
    pub fn clone(&self) -> (r: Header)
        ensures
            r.name@ == self.name@,
            r.value@ == self.value@,
    {
        Header { name: self.name.clone(), value: self.value.clone() }
    }
}

/// Headers pairwise equal in name and value.
pub open spec fn headers_equal(a: Seq<Header>, b: Seq<Header>) -> bool {
    a.len() == b.len() && forall|i: int|
        0 <= i < a.len() ==> #[trigger] a[i].name@ == b[i].name@ && a[i].value@ == b[i].value@
}

/// An equal copy of a header list.
pub fn clone_headers(headers: &Vec<Header>) -> (r: Vec<Header>)
    ensures
        headers_equal(r@, headers@),
{
    let mut out: Vec<Header> = Vec::new();
    let mut i: usize = 0;
    while i < headers.len()
        invariant
            i <= headers@.len(),
            out@.len() == i,
            forall|j: int|
                0 <= j < i ==> #[trigger] out@[j].name@ == headers@[j].name@ && out@[j].value@
                    == headers@[j].value@,
        decreases headers@.len() - i,
    {
        out.push(headers[i].clone());
        i += 1;
    }
    out
}

/// An equal copy of a byte vector.
pub fn clone_bytes(bytes: &Vec<u8>) -> (r: Vec<u8>)
    ensures
        r@ == bytes@,
{
    let mut out: Vec<u8> = Vec::new();
    let mut i: usize = 0;
    while i < bytes.len()
        invariant
            i <= bytes@.len(),
            out@ =~= bytes@.subrange(0, i as int),
        decreases bytes@.len() - i,
    {
        out.push(bytes[i]);
        i += 1;
    }
    proof {
        assert(out@ =~= bytes@);
    }
    out
}

/// Responses equal in status, version, headers and body.
pub open spec fn responses_equal(a: &BufferedResponse, b: &BufferedResponse) -> bool {
    a.status == b.status && a.version == b.version && headers_equal(a.headers@, b.headers@)
        && a.body@ == b.body@
}

impl BufferedResponse {
    /// An equal copy of this response, as the cache stores one copy and
    /// forwards another.
    pub fn clone(&self) -> (r: BufferedResponse)
        ensures
            responses_equal(&r, self),
    {
        BufferedResponse {
            status: self.status,
            version: self.version,
            headers: clone_headers(&self.headers),
            body: clone_bytes(&self.body),
        }
    }
}

} // verus!
