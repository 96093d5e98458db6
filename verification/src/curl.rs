//! Requests to the server's interface that the user writes by hand.

use vstd::prelude::*;
use vstd::string::{StrSliceExecFns, StringExecFns};
use crate::error::{Error, ErrorView};
use crate::immichctl::{ClientSettingsView, ImmichCtl};
use crate::text::chars_of;

verus! {

/// The methods that a request can use.
#[derive(Clone, Copy, Debug, PartialEq, Eq, Structural)]
pub enum CurlMethod {
    Get,
    Post,
    Put,
    Delete,
}

/// What a request carries, read from what the user wrote.
#[derive(Debug)]
pub enum CurlData {
    /// A JSON document, as it was written.
    Json(String),
    /// An object of texts, written as `key=value` pairs with `&` between
    /// them. Where a key comes twice, the later pair counts.
    Object(Vec<(String, String)>),
    /// A text.
    Text(String),
}

/// A request that is ready to be sent.
#[derive(Debug)]
pub struct CurlRequest {
    /// The method.
    pub method: CurlMethod,
    /// The address.
    pub url: String,
    /// What the request carries.
    pub body: Option<CurlData>,
}

/// What a request carries, as plain values.
pub ghost enum CurlDataView {
    Json(Seq<char>),
    Object(Seq<(Seq<char>, Seq<char>)>),
    Text(Seq<char>),
}

/// A request as plain values.
pub ghost struct CurlRequestView {
    pub method: CurlMethod,
    pub url: Seq<char>,
    pub body: Option<CurlDataView>,
}

/// The pairs as plain values.
pub open spec fn pair_views(pairs: Seq<(String, String)>) -> Seq<(Seq<char>, Seq<char>)> {
    Seq::new(pairs.len(), |i: int| (pairs[i].0@, pairs[i].1@))
}

impl View for CurlData {
    type V = CurlDataView;

    open spec fn view(&self) -> CurlDataView {
        match self {
            CurlData::Json(text) => CurlDataView::Json(text@),
            CurlData::Object(pairs) => CurlDataView::Object(pair_views(pairs@)),
            CurlData::Text(text) => CurlDataView::Text(text@),
        }
    }
}

/// What is carried, as plain values.
pub open spec fn data_view(data: Option<CurlData>) -> Option<CurlDataView> {
    match data {
        Some(d) => Some(d@),
        None => None,
    }
}

impl View for CurlRequest {
    type V = CurlRequestView;

    open spec fn view(&self) -> CurlRequestView {
        CurlRequestView { method: self.method, url: self.url@, body: data_view(self.body) }
    }
}

/// Whether `text` is a JSON document, as `serde_json` reads it.
pub uninterp spec fn is_json(text: Seq<char>) -> bool;

/// Where `c` first stands in `s`, or the length of `s` where it stands
/// nowhere.
pub open spec fn first_index(s: Seq<char>, c: char) -> int
    decreases s.len(),
{
    if s.len() == 0 || s[0] == c {
        0
    } else {
        1 + first_index(s.drop_first(), c)
    }
}

/// Key and value of the segment `segment`: what stands before its first `=`
/// and what stands behind it. A segment without `=` is no pair.
pub open spec fn pair_of(segment: Seq<char>) -> Option<(Seq<char>, Seq<char>)> {
    let e = first_index(segment, '=');
    if e < segment.len() {
        Some((segment.subrange(0, e), segment.subrange(e + 1, segment.len() as int)))
    } else {
        None
    }
}

/// The pairs among the segments of `s`, which `&` separates.
pub open spec fn pairs_of(s: Seq<char>) -> Seq<(Seq<char>, Seq<char>)>
    decreases s.len(),
{
    let k = first_index(s, '&');
    let here = match pair_of(s.subrange(0, k)) {
        Some(pair) => seq![pair],
        None => Seq::empty(),
    };
    if 0 <= k < s.len() {
        here + pairs_of(s.subrange(k + 1, s.len() as int))
    } else {
        here
    }
}

/// What `body` carries, given whether it is a JSON document: the document;
/// else its pairs, if it has any; else itself, as a text.
pub open spec fn data_of(body: Seq<char>, json: bool) -> CurlDataView {
    if json {
        CurlDataView::Json(body)
    } else if pairs_of(body).len() > 0 {
        CurlDataView::Object(pairs_of(body))
    } else {
        CurlDataView::Text(body)
    }
}

/// The request for `path` at the server of `settings`: the path is appended
/// to the address of the interface, and every method but `Get` carries the
/// data.
pub open spec fn request_for(
    settings: ClientSettingsView,
    path: Seq<char>,
    method: CurlMethod,
    data: Option<CurlDataView>,
) -> CurlRequestView {
    CurlRequestView {
        method,
        url: settings.base_url + seq!['/'] + path,
        body: if method == CurlMethod::Get {
            None
        } else {
            data
        },
    }
}

/// Calls `serde_json::from_str` for a `serde_json::Value`: whether `text`
/// reads as a JSON document. The answer is taken to depend on the text alone.
#[verifier::external_body]
fn json_valid(text: &str) -> (valid: bool)
    ensures
        valid == is_json(text@),
{
    serde_json::from_str::<serde_json::Value>(text).is_ok()
}

/// The first index in `low..high` at which `c` stands, or `high`.
fn find(v: &[char], low: usize, high: usize, c: char) -> (at: usize)
    requires
        low <= high <= v@.len(),
    ensures
        low <= at <= high,
        at == low + first_index(v@.subrange(low as int, high as int), c),
{
    let mut at: usize = low;
    while at < high && v[at] != c
        invariant
            low <= at <= high <= v@.len(),
            first_index(v@.subrange(low as int, high as int), c) == (at - low) + first_index(
                v@.subrange(at as int, high as int),
                c,
            ),
        decreases high - at,
    {
        assert(v@.subrange(at as int, high as int).drop_first() == v@.subrange(
            at + 1,
            high as int,
        ));
        at += 1;
    }
    at
}

impl ImmichCtl {
    /// What `body` carries, given whether it is a JSON document.
    pub fn parse_data(body: &str, json: bool) -> (data: CurlData)
        ensures
            data@ == data_of(body@, json),
    {
        if json {
            return CurlData::Json(body.to_owned());
        }
        let v = chars_of(body);
        let n = v.len();
        let mut pairs: Vec<(String, String)> = Vec::new();
        let mut start: usize = 0;
        let mut more = true;
        assert(v@.subrange(0, n as int) == v@);
        while more
            invariant
                start <= n == v@.len(),
                v@ == body@,
                more ==> pair_views(pairs@) + pairs_of(v@.subrange(start as int, n as int))
                    == pairs_of(v@),
                !more ==> pair_views(pairs@) == pairs_of(v@),
            decreases n - start + if more { 1int } else { 0int },
        {
            let ghost rest = v@.subrange(start as int, n as int);
            let ghost before = pair_views(pairs@);
            let k = find(v.as_slice(), start, n, '&');
            let e = find(v.as_slice(), start, k, '=');
            proof {
                assert(rest.subrange(0, k - start) == v@.subrange(start as int, k as int));
                if k < n {
                    assert(rest.subrange(k - start + 1, rest.len() as int) == v@.subrange(
                        k + 1,
                        n as int,
                    ));
                }
            }
            if e < k {
                let key = body.substring_char(start, e).to_owned();
                let value = body.substring_char(e + 1, k).to_owned();
                proof {
                    let segment = v@.subrange(start as int, k as int);
                    assert(segment.subrange(0, e - start) == v@.subrange(start as int, e as int));
                    assert(segment.subrange(e - start + 1, segment.len() as int) == v@.subrange(
                        e + 1,
                        k as int,
                    ));
                }
                pairs.push((key, value));
                assert(pair_views(pairs@) == before + seq![
                    pair_of(v@.subrange(start as int, k as int))->0,
                ]);
            } else {
                assert(pair_views(pairs@) == before + Seq::<(Seq<char>, Seq<char>)>::empty());
            }
            if k < n {
                start = k + 1;
            } else {
                more = false;
            }
        }
        if pairs.len() > 0 {
            CurlData::Object(pairs)
        } else {
            CurlData::Text(body.to_owned())
        }
    }

    /// What the data that the user wrote carries: a JSON document where it is
    /// one, else an object of its `key=value` pairs, else a text. Nothing where
    /// the user wrote nothing.
    pub fn parse_data_to_json(data: &Option<String>) -> (r: Option<CurlData>)
        ensures
            match data {
                Some(body) => r is Some && r->0@ == data_of(body@, is_json(body@)),
                None => r is None,
            },
    {
        match data {
            Some(body) => {
                let json = json_valid(body.as_str());
                Some(Self::parse_data(body.as_str(), json))
            },
            None => None,
        }
    }

    /// The request that the user asks for, while logged in.
    pub fn curl(&self, path: &str, method: CurlMethod, data: &Option<String>) -> (r: Result<
        CurlRequest,
        Error,
    >)
        ensures
            match r {
                Ok(request) => self.client() matches Some(settings) && request@ == request_for(
                    settings,
                    path@,
                    method,
                    match data {
                        Some(body) => Some(data_of(body@, is_json(body@))),
                        None => None,
                    },
                ),
                Err(e) => e@ == ErrorView::NotLoggedIn,
            },
            r is Err <==> !crate::config::is_logged_in(self.config_view()) || self.client() is None,
    {
        match self.assert_logged_in() {
            Err(e) => {
                return Err(e);
            },
            Ok(()) => {},
        }
        let settings = match self.immich() {
            Ok(settings) => settings,
            Err(e) => {
                return Err(e);
            },
        };
        proof {
            reveal_strlit("/");
        }
        let url = settings.base_url.clone().concat("/").concat(path);
        assert(url@ == settings@.base_url + seq!['/'] + path@);
        let body = match method {
            CurlMethod::Get => None,
            _ => Self::parse_data_to_json(data),
        };
        Ok(CurlRequest { method, url, body })
    }
}

} // verus!
