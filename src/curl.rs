//! An HTTP request as a value: method, address, headers and client
//! certificate. Performing it is left to the caller.
use vstd::prelude::*;
use crate::signature::opt_view;

verus! {

/// The method of a request; a POST carries its body.
pub enum RequestMethod {
    GET,
    POST(String),
}

pub enum MethodView {
    Get,
    Post(Seq<char>),
}

impl View for RequestMethod {
    type V = MethodView;

    open spec fn view(&self) -> MethodView {
        match self {
            RequestMethod::GET => MethodView::Get,
            RequestMethod::POST(body) => MethodView::Post(body@),
        }
    }
}

/// The value of a header under `key`: the last pair with that key.
pub open spec fn header_lookup(hs: Seq<(Seq<char>, Seq<char>)>, key: Seq<char>) -> Option<Seq<char>>
    decreases hs.len(),
{
    if hs.len() == 0 {
        None
    } else if hs.last().0 == key {
        Some(hs.last().1)
    } else {
        header_lookup(hs.drop_last(), key)
    }
}

/// The value of a [`Request`].
pub struct RequestView {
    pub method: MethodView,
    pub url: Seq<char>,
    pub headers: Seq<(Seq<char>, Seq<char>)>,
    pub certificate_path: Option<Seq<char>>,
}

impl RequestView {
    /// No two headers share a name.
    pub open spec fn wf(&self) -> bool {
        forall|i: int, j: int|
            0 <= i < j < self.headers.len() ==> #[trigger] self.headers[i].0 != #[trigger] self.headers[j].0
    }
}

/// An HTTP request under construction.
pub struct Request {
    method: RequestMethod,
    url: String,
    headers: Vec<(String, String)>,
    certificate_path: Option<String>,
}

pub open spec fn pairs_view(hs: Seq<(String, String)>) -> Seq<(Seq<char>, Seq<char>)> {
    hs.map_values(|h: (String, String)| (h.0@, h.1@))
}

impl View for Request {
    type V = RequestView;

    closed spec fn view(&self) -> RequestView {
        RequestView {
            method: self.method@,
            url: self.url@,
            headers: pairs_view(self.headers@),
            certificate_path: opt_view(self.certificate_path),
        }
    }
}

impl Request {
    /// A GET with no address, no headers and no certificate.
    pub fn new() -> (r: Self)
        ensures
            r@.method == MethodView::Get,
            r@.url.len() == 0,
            r@.headers.len() == 0,
            r@.certificate_path is None,
            r@.wf(),
    {
        let r = Request {
            method: RequestMethod::GET,
            url: String::new(),
            headers: Vec::new(),
            certificate_path: None,
        };
        proof {
            assert(pairs_view(r.headers@) =~= Seq::empty());
        }
        r
    }

    pub fn set_method(self, method: RequestMethod) -> (r: Self)
        ensures
            r@ == (RequestView { method: method@, ..self@ }),
    {
        let mut s = self;
        s.method = method;
        s
    }

    pub fn set_url(self, url: String) -> (r: Self)
        ensures
            r@ == (RequestView { url: url@, ..self@ }),
    {
        let mut s = self;
        s.url = url;
        s
    }

    /// Sets the header `key` to `value`, or removes it where `value` is
    /// `None`. Other headers keep their values.
    pub fn set_header(self, key: String, value: Option<String>) -> (r: Self)
        requires
            self@.wf(),
        ensures
            r@.wf(),
            r@.method == self@.method,
            r@.url == self@.url,
            r@.certificate_path == self@.certificate_path,
            header_lookup(r@.headers, key@) == (match value {
                Some(v) => Some(v@),
                None => None::<Seq<char>>,
            }),
            forall|k: Seq<char>|
                k != key@ ==> #[trigger] header_lookup(r@.headers, k) == header_lookup(
                    self@.headers,
                    k,
                ),
    {
        let mut s = self;
        let ghost old_hs = pairs_view(s.headers@);
        let mut old = Vec::new();
        std::mem::swap(&mut old, &mut s.headers);
        let mut kept: Vec<(String, String)> = Vec::new();
        let n = old.len();
        let mut i: usize = 0;
        while i < n
            invariant
                n == old@.len(),
                i <= n,
                pairs_view(old@) == old_hs,
                forall|a: int, b: int|
                    0 <= a < b < old_hs.len() ==> #[trigger] old_hs[a].0 != #[trigger] old_hs[b].0,
                forall|a: int, b: int|
                    0 <= a < b < kept@.len() ==> #[trigger] pairs_view(kept@)[a].0
                        != #[trigger] pairs_view(kept@)[b].0,
                forall|a: int|
                    0 <= a < kept@.len() ==> pairs_view(kept@)[a].0 != key@ && exists|m: int|
                        0 <= m < i && old_hs[m].0 == #[trigger] pairs_view(kept@)[a].0,
                forall|k: Seq<char>|
                    #[trigger] header_lookup(pairs_view(kept@), k) == if k == key@ {
                        None
                    } else {
                        header_lookup(old_hs.subrange(0, i as int), k)
                    },
            decreases n - i,
        {
            let ghost before = pairs_view(kept@);
            let same = old[i].0 == key;
            if !same {
                let p = (old[i].0.clone(), old[i].1.clone());
                kept.push(p);
            }
            proof {
                let pre = old_hs.subrange(0, i as int);
                let post = old_hs.subrange(0, i + 1);
                assert(post.drop_last() =~= pre);
                assert(post.last() == old_hs[i as int]);
                if !same {
                    assert(pairs_view(kept@) =~= before.push(old_hs[i as int]));
                    assert(old_hs[i as int].0 == old@[i as int].0@);
                    assert forall|a: int| 0 <= a < before.len() implies before[a].0 != old_hs[
                        i as int].0 by {
                        assert(pairs_view(kept@)[a] == before[a]);
                        let m = choose|m: int| 0 <= m < i && old_hs[m].0 == before[a].0;
                        assert(old_hs[m].0 != old_hs[i as int].0);
                    }
                    assert forall|a: int|
                        0 <= a < kept@.len() implies pairs_view(kept@)[a].0 != key@ && exists|m: int|
                        0 <= m < i + 1 && old_hs[m].0 == #[trigger] pairs_view(kept@)[a].0 by {
                        if a < before.len() {
                            assert(pairs_view(kept@)[a] == before[a]);
                            let m = choose|m: int| 0 <= m < i && old_hs[m].0 == before[a].0;
                            assert(0 <= m < i + 1 && old_hs[m].0 == pairs_view(kept@)[a].0);
                        } else {
                            assert(old_hs[i as int].0 == pairs_view(kept@)[a].0);
                        }
                    }
                } else {
                    assert(pairs_view(kept@) =~= before);
                }
                assert forall|k: Seq<char>| #[trigger]
                    header_lookup(pairs_view(kept@), k) == if k == key@ {
                        None
                    } else {
                        header_lookup(post, k)
                    } by {
                    assert(old_hs[i as int].0 == old@[i as int].0@);
                    assert(old_hs[i as int].0 == key@ <==> same);
                    assert(header_lookup(before, k) == if k == key@ {
                        None
                    } else {
                        header_lookup(pre, k)
                    });
                    if !same {
                        assert(pairs_view(kept@).drop_last() =~= before);
                        assert(pairs_view(kept@).last() == old_hs[i as int]);
                    }
                }
            }
            i += 1;
        }
        proof {
            assert(old_hs.subrange(0, n as int) =~= old_hs);
        }
        let ghost filtered = pairs_view(kept@);
        assert(forall|a: int| 0 <= a < filtered.len() ==> filtered[a].0 != key@);
        match value {
            Some(v) => {
                let ghost before = pairs_view(kept@);
                let ghost entry = (key@, v@);
                kept.push((key, v));
                proof {
                    assert(pairs_view(kept@) =~= before.push(entry));
                    assert(pairs_view(kept@).drop_last() =~= before);
                }
            },
            None => {},
        }
        s.headers = kept;
        proof {
            assert forall|k: Seq<char>| k != key@ implies #[trigger] header_lookup(s@.headers, k)
                == header_lookup(old_hs, k) by {
                assert(header_lookup(filtered, k) == header_lookup(old_hs, k));
            }
        }
        s
    }

    pub fn set_certificate_path(self, certificate_path: Option<String>) -> (r: Self)
        ensures
            r@ == (RequestView {
                certificate_path: opt_view(certificate_path),
                ..self@
            }),
    {
        let mut s = self;
        s.certificate_path = certificate_path;
        s
    }

    pub fn method(&self) -> (r: &RequestMethod)
        ensures
            r@ == self@.method,
    {
        &self.method
    }

    pub fn url(&self) -> (r: &String)
        ensures
            r@ == self@.url,
    {
        &self.url
    }

    /// The headers as name and value pairs.
    pub fn headers(&self) -> (r: &Vec<(String, String)>)
        ensures
            pairs_view(r@) == self@.headers,
    {
        &self.headers
    }

    pub fn certificate_path(&self) -> (r: &Option<String>)
        ensures
            self@.certificate_path == opt_view(*r),
    {
        &self.certificate_path
    }
}

} // verus!
