//! The provider's reply schema, and the parse of a body against it.
//!
//! The reply is one JSON object with seven required fields; `results` holds
//! the aggregate bars, objects of eight required fields each. Unknown fields
//! anywhere are skipped; a missing required field, a duplicated field, or a
//! value of the wrong type fails the whole parse, as does any malformed or
//! trailing text. Prices and volumes are kept as their number-literal text,
//! validated against the JSON number grammar; the counts and the timestamp
//! are converted to machine integers, failing when a token is not an integer
//! or does not fit.

use vstd::prelude::*;

use crate::json::as_i32;
use crate::json::as_i64;
use crate::json::int32_of_token;
use crate::json::int_of_token;
use crate::json::number_end;
use crate::json::parse_number;
use crate::json::parse_string;
use crate::json::parse_string_body;
use crate::json::skip_value;
use crate::json::skip_value_exec;
use crate::json::skip_ws;
use crate::json::str_eq;
use crate::json::token_string;
use crate::json::ws_to;
use crate::json::chars_of;
use crate::error::FetchError;

verus! {

/// One trading-interval aggregate, as the provider reports it. The prices
/// and volumes are kept as the number-literal text of the body.
pub struct AggregateBar {
    /// Close price.
    pub c: String,
    /// Highest price.
    pub h: String,
    /// Lowest price.
    pub l: String,
    /// Number of transactions.
    pub n: i32,
    /// Open price.
    pub o: String,
    /// Timestamp, milliseconds since the Unix epoch.
    pub t: i64,
    /// Trading volume.
    pub v: String,
    /// Volume-weighted average price.
    pub vw: String,
}

/// The mathematical value of an `AggregateBar`.
pub ghost struct BarV {
    pub c: Seq<char>,
    pub h: Seq<char>,
    pub l: Seq<char>,
    pub n: int,
    pub o: Seq<char>,
    pub t: int,
    pub v: Seq<char>,
    pub vw: Seq<char>,
}

impl View for AggregateBar {
    type V = BarV;

    open spec fn view(&self) -> BarV {
        BarV {
            c: self.c@,
            h: self.h@,
            l: self.l@,
            n: self.n as int,
            o: self.o@,
            t: self.t as int,
            v: self.v@,
            vw: self.vw@,
        }
    }
}

/// The provider's top-level reply.
pub struct AggregateResponse {
    /// Whether the prices are split-adjusted.
    pub adjusted: bool,
    /// How many data points the query matched.
    pub query_count: i32,
    /// The provider's identifier for this request.
    pub request_id: String,
    /// How many entries `results` holds, as the provider reports it.
    pub results_count: i32,
    /// The provider's status code.
    pub status: String,
    /// The ticker, echoed back.
    pub ticker: String,
    /// The aggregate bars, in the order the provider returned them.
    pub results: Vec<AggregateBar>,
}

/// The mathematical value of an `AggregateResponse`.
pub ghost struct RespV {
    pub adjusted: bool,
    pub query_count: int,
    pub request_id: Seq<char>,
    pub results_count: int,
    pub status: Seq<char>,
    pub ticker: Seq<char>,
    pub results: Seq<BarV>,
}

/// The values of a sequence of bars.
pub open spec fn bars_view(s: Seq<AggregateBar>) -> Seq<BarV> {
    s.map_values(|b: AggregateBar| b@)
}

impl View for AggregateResponse {
    type V = RespV;

    open spec fn view(&self) -> RespV {
        RespV {
            adjusted: self.adjusted,
            query_count: self.query_count as int,
            request_id: self.request_id@,
            results_count: self.results_count as int,
            status: self.status@,
            ticker: self.ticker@,
            results: bars_view(self.results@),
        }
    }
}

/// The fields of a bar object seen so far.
pub ghost struct BarState {
    pub c: Option<Seq<char>>,
    pub h: Option<Seq<char>>,
    pub l: Option<Seq<char>>,
    pub n: Option<int>,
    pub o: Option<Seq<char>>,
    pub t: Option<int>,
    pub v: Option<Seq<char>>,
    pub vw: Option<Seq<char>>,
}

/// No bar field seen yet.
pub open spec fn empty_bar_state() -> BarState {
    BarState { c: None, h: None, l: None, n: None, o: None, t: None, v: None, vw: None }
}

/// A bar is complete only when every required field was seen.
pub open spec fn bar_of(st: BarState) -> Option<BarV> {
    match (st.c, st.h, st.l, st.n, st.o, st.t, st.v, st.vw) {
        (
            Some(c),
            Some(h),
            Some(l),
            Some(n),
            Some(o),
            Some(t),
            Some(v),
            Some(vw),
        ) => Some(BarV { c, h, l, n, o, t, v, vw }),
        _ => None,
    }
}

/// The fields of the reply object seen so far.
pub ghost struct RespState {
    pub adjusted: Option<bool>,
    pub query_count: Option<int>,
    pub request_id: Option<Seq<char>>,
    pub results_count: Option<int>,
    pub status: Option<Seq<char>>,
    pub ticker: Option<Seq<char>>,
    pub results: Option<Seq<BarV>>,
}

/// No reply field seen yet.
pub open spec fn empty_resp_state() -> RespState {
    RespState {
        adjusted: None,
        query_count: None,
        request_id: None,
        results_count: None,
        status: None,
        ticker: None,
        results: None,
    }
}

/// A reply is complete only when every required field was seen.
pub open spec fn resp_of(st: RespState) -> Option<RespV> {
    match (st.adjusted, st.query_count, st.request_id, st.results_count, st.status, st.ticker, st.results) {
        (
            Some(adjusted),
            Some(query_count),
            Some(request_id),
            Some(results_count),
            Some(status),
            Some(ticker),
            Some(results),
        ) => Some(
            RespV { adjusted, query_count, request_id, results_count, status, ticker, results },
        ),
        _ => None,
    }
}

/// Parse the value of one bar field whose key was `key`, updating the state.
/// A key the schema does not know has its value skipped; a known key seen
/// twice, or a value of the wrong shape, fails.
pub open spec fn parse_bar_field(
    s: Seq<char>,
    i: int,
    st: BarState,
    key: Seq<char>,
    fuel: nat,
) -> Option<(BarState, int)> {
    if !(0 <= i <= s.len()) {
        None
    } else if key == "c"@ {
        if st.c is Some {
            None
        } else {
            match parse_number(s, i) {
                None => None,
                Some((tok, j)) => Some((BarState { c: Some(tok), ..st }, j)),
            }
        }
    } else if key == "h"@ {
        if st.h is Some {
            None
        } else {
            match parse_number(s, i) {
                None => None,
                Some((tok, j)) => Some((BarState { h: Some(tok), ..st }, j)),
            }
        }
    } else if key == "l"@ {
        if st.l is Some {
            None
        } else {
            match parse_number(s, i) {
                None => None,
                Some((tok, j)) => Some((BarState { l: Some(tok), ..st }, j)),
            }
        }
    } else if key == "n"@ {
        if st.n is Some {
            None
        } else {
            match parse_number(s, i) {
                None => None,
                Some((tok, j)) => match as_i32(tok) {
                    None => None,
                    Some(x) => Some((BarState { n: Some(x as int), ..st }, j)),
                },
            }
        }
    } else if key == "o"@ {
        if st.o is Some {
            None
        } else {
            match parse_number(s, i) {
                None => None,
                Some((tok, j)) => Some((BarState { o: Some(tok), ..st }, j)),
            }
        }
    } else if key == "t"@ {
        if st.t is Some {
            None
        } else {
            match parse_number(s, i) {
                None => None,
                Some((tok, j)) => match as_i64(tok) {
                    None => None,
                    Some(x) => Some((BarState { t: Some(x as int), ..st }, j)),
                },
            }
        }
    } else if key == "v"@ {
        if st.v is Some {
            None
        } else {
            match parse_number(s, i) {
                None => None,
                Some((tok, j)) => Some((BarState { v: Some(tok), ..st }, j)),
            }
        }
    } else if key == "vw"@ {
        if st.vw is Some {
            None
        } else {
            match parse_number(s, i) {
                None => None,
                Some((tok, j)) => Some((BarState { vw: Some(tok), ..st }, j)),
            }
        }
    } else {
        match skip_value(s, i, fuel) {
            None => None,
            Some(j) => Some((st, j)),
        }
    }
}

/// Parse the members of a bar object whose `{` was just consumed.
pub open spec fn parse_bar_fields(
    s: Seq<char>,
    i: int,
    st: BarState,
    allow_close: bool,
    fuel: nat,
) -> Option<(BarState, int)>
    decreases fuel,
{
    if fuel == 0 || !(0 <= i <= s.len()) {
        None
    } else {
        let i0 = skip_ws(s, i);
        if !(0 <= i0 < s.len()) {
            None
        } else if s[i0] == '}' && allow_close {
            Some((st, i0 + 1))
        } else if s[i0] == '"' {
            match parse_string_body(s, i0 + 1) {
                None => None,
                Some((key, i1)) => {
                    if !(0 <= i1 <= s.len()) {
                        None
                    } else {
                        let i2 = skip_ws(s, i1);
                        if !(i2 < s.len() && s[i2] == ':') {
                            None
                        } else {
                            let i3 = skip_ws(s, i2 + 1);
                            match parse_bar_field(s, i3, st, key, fuel) {
                                None => None,
                                Some((st2, i4)) => {
                                    if !(0 <= i4 <= s.len()) {
                                        None
                                    } else {
                                        let i5 = skip_ws(s, i4);
                                        if i5 < s.len() && s[i5] == ',' {
                                            parse_bar_fields(s, i5 + 1, st2, false, (fuel - 1) as nat)
                                        } else if i5 < s.len() && s[i5] == '}' {
                                            Some((st2, i5 + 1))
                                        } else {
                                            None
                                        }
                                    }
                                },
                            }
                        }
                    }
                },
            }
        } else {
            None
        }
    }
}

/// Parse the elements of the `results` array, each a complete bar object.
pub open spec fn parse_bars(
    s: Seq<char>,
    i: int,
    acc: Seq<BarV>,
    allow_close: bool,
    fuel: nat,
) -> Option<(Seq<BarV>, int)>
    decreases fuel,
{
    if fuel == 0 || !(0 <= i <= s.len()) {
        None
    } else {
        let i0 = skip_ws(s, i);
        if !(0 <= i0 < s.len()) {
            None
        } else if s[i0] == ']' && allow_close {
            Some((acc, i0 + 1))
        } else if s[i0] == '{' {
            match parse_bar_fields(s, i0 + 1, empty_bar_state(), true, (fuel - 1) as nat) {
                None => None,
                Some((st, i1)) => match bar_of(st) {
                    None => None,
                    Some(bar) => {
                        if !(0 <= i1 <= s.len()) {
                            None
                        } else {
                            let i2 = skip_ws(s, i1);
                            if i2 < s.len() && s[i2] == ',' {
                                parse_bars(s, i2 + 1, acc.push(bar), false, (fuel - 1) as nat)
                            } else if i2 < s.len() && s[i2] == ']' {
                                Some((acc.push(bar), i2 + 1))
                            } else {
                                None
                            }
                        }
                    },
                },
            }
        } else {
            None
        }
    }
}

/// Parse the value of one reply field whose key was `key`.
pub open spec fn parse_resp_field(
    s: Seq<char>,
    i: int,
    st: RespState,
    key: Seq<char>,
    fuel: nat,
) -> Option<(RespState, int)> {
    if !(0 <= i <= s.len()) {
        None
    } else if key == "adjusted"@ {
        if st.adjusted is Some {
            None
        } else if i + 4 <= s.len() && s[i] == 't' && s[i + 1] == 'r' && s[i + 2] == 'u' && s[i + 3]
            == 'e' {
            Some((RespState { adjusted: Some(true), ..st }, i + 4))
        } else if i + 5 <= s.len() && s[i] == 'f' && s[i + 1] == 'a' && s[i + 2] == 'l' && s[i + 3]
            == 's' && s[i + 4] == 'e' {
            Some((RespState { adjusted: Some(false), ..st }, i + 5))
        } else {
            None
        }
    } else if key == "queryCount"@ {
        if st.query_count is Some {
            None
        } else {
            match parse_number(s, i) {
                None => None,
                Some((tok, j)) => match as_i32(tok) {
                    None => None,
                    Some(x) => Some((RespState { query_count: Some(x as int), ..st }, j)),
                },
            }
        }
    } else if key == "request_id"@ {
        if st.request_id is Some {
            None
        } else if i < s.len() && s[i] == '"' {
            match parse_string_body(s, i + 1) {
                None => None,
                Some((t, j)) => Some((RespState { request_id: Some(t), ..st }, j)),
            }
        } else {
            None
        }
    } else if key == "resultsCount"@ {
        if st.results_count is Some {
            None
        } else {
            match parse_number(s, i) {
                None => None,
                Some((tok, j)) => match as_i32(tok) {
                    None => None,
                    Some(x) => Some((RespState { results_count: Some(x as int), ..st }, j)),
                },
            }
        }
    } else if key == "status"@ {
        if st.status is Some {
            None
        } else if i < s.len() && s[i] == '"' {
            match parse_string_body(s, i + 1) {
                None => None,
                Some((t, j)) => Some((RespState { status: Some(t), ..st }, j)),
            }
        } else {
            None
        }
    } else if key == "ticker"@ {
        if st.ticker is Some {
            None
        } else if i < s.len() && s[i] == '"' {
            match parse_string_body(s, i + 1) {
                None => None,
                Some((t, j)) => Some((RespState { ticker: Some(t), ..st }, j)),
            }
        } else {
            None
        }
    } else if key == "results"@ {
        if st.results is Some {
            None
        } else if i < s.len() && s[i] == '[' {
            match parse_bars(s, i + 1, Seq::empty(), true, fuel) {
                None => None,
                Some((bars, j)) => Some((RespState { results: Some(bars), ..st }, j)),
            }
        } else {
            None
        }
    } else {
        match skip_value(s, i, fuel) {
            None => None,
            Some(j) => Some((st, j)),
        }
    }
}

/// Parse the members of the reply object whose `{` was just consumed.
pub open spec fn parse_resp_fields(
    s: Seq<char>,
    i: int,
    st: RespState,
    allow_close: bool,
    fuel: nat,
) -> Option<(RespState, int)>
    decreases fuel,
{
    if fuel == 0 || !(0 <= i <= s.len()) {
        None
    } else {
        let i0 = skip_ws(s, i);
        if !(0 <= i0 < s.len()) {
            None
        } else if s[i0] == '}' && allow_close {
            Some((st, i0 + 1))
        } else if s[i0] == '"' {
            match parse_string_body(s, i0 + 1) {
                None => None,
                Some((key, i1)) => {
                    if !(0 <= i1 <= s.len()) {
                        None
                    } else {
                        let i2 = skip_ws(s, i1);
                        if !(i2 < s.len() && s[i2] == ':') {
                            None
                        } else {
                            let i3 = skip_ws(s, i2 + 1);
                            match parse_resp_field(s, i3, st, key, fuel) {
                                None => None,
                                Some((st2, i4)) => {
                                    if !(0 <= i4 <= s.len()) {
                                        None
                                    } else {
                                        let i5 = skip_ws(s, i4);
                                        if i5 < s.len() && s[i5] == ',' {
                                            parse_resp_fields(s, i5 + 1, st2, false, (fuel - 1) as nat)
                                        } else if i5 < s.len() && s[i5] == '}' {
                                            Some((st2, i5 + 1))
                                        } else {
                                            None
                                        }
                                    }
                                },
                            }
                        }
                    }
                },
            }
        } else {
            None
        }
    }
}

/// The reply a body denotes: one complete reply object with nothing but
/// whitespace around it, or nothing at all when the body is not such text.
pub open spec fn spec_parse_response(s: Seq<char>) -> Option<RespV> {
    let fuel = (2 * s.len() + 4) as nat;
    let i0 = skip_ws(s, 0);
    if !(0 <= i0 < s.len() && s[i0] == '{') {
        None
    } else {
        match parse_resp_fields(s, i0 + 1, empty_resp_state(), true, fuel) {
            None => None,
            Some((st, j)) => {
                if !(0 <= j <= s.len()) {
                    None
                } else if skip_ws(s, j) != s.len() {
                    None
                } else {
                    resp_of(st)
                }
            },
        }
    }
}

/// The bar fields collected so far, as executable values.
struct BarAcc {
    c: Option<String>,
    h: Option<String>,
    l: Option<String>,
    n: Option<i32>,
    o: Option<String>,
    t: Option<i64>,
    v: Option<String>,
    vw: Option<String>,
}

impl View for BarAcc {
    type V = BarState;

    closed spec fn view(&self) -> BarState {
        BarState {
            c: match self.c {
                Some(x) => Some(x@),
                None => None,
            },
            h: match self.h {
                Some(x) => Some(x@),
                None => None,
            },
            l: match self.l {
                Some(x) => Some(x@),
                None => None,
            },
            n: match self.n {
                Some(x) => Some(x as int),
                None => None,
            },
            o: match self.o {
                Some(x) => Some(x@),
                None => None,
            },
            t: match self.t {
                Some(x) => Some(x as int),
                None => None,
            },
            v: match self.v {
                Some(x) => Some(x@),
                None => None,
            },
            vw: match self.vw {
                Some(x) => Some(x@),
                None => None,
            },
        }
    }
}

fn new_bar_acc() -> (r: BarAcc)
    ensures
        r@ == empty_bar_state(),
{
    BarAcc { c: None, h: None, l: None, n: None, o: None, t: None, v: None, vw: None }
}

/// A complete bar from the collected fields, or `None` when one is missing.
fn bar_from_acc(acc: BarAcc) -> (r: Option<AggregateBar>)
    ensures
        match r {
            Some(b) => bar_of(acc@) == Some(b@),
            None => bar_of(acc@) is None,
        },
{
    match (acc.c, acc.h, acc.l, acc.n, acc.o, acc.t, acc.v, acc.vw) {
        (Some(c), Some(h), Some(l), Some(n), Some(o), Some(t), Some(v), Some(vw)) => Some(
            AggregateBar { c, h, l, n, o, t, v, vw },
        ),
        _ => None,
    }
}

/// Parse one bar field's value, as `parse_bar_field` describes.
fn parse_bar_field_exec(v: &Vec<char>, i: usize, acc: BarAcc, key: &String, fuel: u128) -> (r:
    Option<(BarAcc, usize)>)
    requires
        i <= v@.len(),
    ensures
        match r {
            Some((a2, j)) => parse_bar_field(v@, i as int, acc@, key@, fuel as nat) == Some(
                (a2@, j as int),
            ) && j <= v@.len(),
            None => parse_bar_field(v@, i as int, acc@, key@, fuel as nat) is None,
        },
{
    if str_eq(key, "c") {
        if acc.c.is_some() {
            return None;
        }
        match number_end(v, i) {
            None => None,
            Some(j) => {
                let tok = token_string(v, i, j);
                Some((BarAcc { c: Some(tok), ..acc }, j))
            },
        }
    } else if str_eq(key, "h") {
        if acc.h.is_some() {
            return None;
        }
        match number_end(v, i) {
            None => None,
            Some(j) => {
                let tok = token_string(v, i, j);
                Some((BarAcc { h: Some(tok), ..acc }, j))
            },
        }
    } else if str_eq(key, "l") {
        if acc.l.is_some() {
            return None;
        }
        match number_end(v, i) {
            None => None,
            Some(j) => {
                let tok = token_string(v, i, j);
                Some((BarAcc { l: Some(tok), ..acc }, j))
            },
        }
    } else if str_eq(key, "n") {
        if acc.n.is_some() {
            return None;
        }
        match number_end(v, i) {
            None => None,
            Some(j) => {
                match int32_of_token(v, i, j) {
                    None => None,
                    Some(x) => Some((BarAcc { n: Some(x), ..acc }, j)),
                }
            },
        }
    } else if str_eq(key, "o") {
        if acc.o.is_some() {
            return None;
        }
        match number_end(v, i) {
            None => None,
            Some(j) => {
                let tok = token_string(v, i, j);
                Some((BarAcc { o: Some(tok), ..acc }, j))
            },
        }
    } else if str_eq(key, "t") {
        if acc.t.is_some() {
            return None;
        }
        match number_end(v, i) {
            None => None,
            Some(j) => {
                match int_of_token(v, i, j) {
                    None => None,
                    Some(x) => Some((BarAcc { t: Some(x), ..acc }, j)),
                }
            },
        }
    } else if str_eq(key, "v") {
        if acc.v.is_some() {
            return None;
        }
        match number_end(v, i) {
            None => None,
            Some(j) => {
                let tok = token_string(v, i, j);
                Some((BarAcc { v: Some(tok), ..acc }, j))
            },
        }
    } else if str_eq(key, "vw") {
        if acc.vw.is_some() {
            return None;
        }
        match number_end(v, i) {
            None => None,
            Some(j) => {
                let tok = token_string(v, i, j);
                Some((BarAcc { vw: Some(tok), ..acc }, j))
            },
        }
    } else {
        match skip_value_exec(v, i, fuel) {
            None => None,
            Some(j) => Some((acc, j)),
        }
    }
}

/// Parse a bar object's members, as `parse_bar_fields` describes.
fn parse_bar_fields_exec(v: &Vec<char>, i: usize, acc: BarAcc, allow_close: bool, fuel: u128) -> (r:
    Option<(BarAcc, usize)>)
    requires
        i <= v@.len(),
    ensures
        match r {
            Some((a2, j)) => parse_bar_fields(v@, i as int, acc@, allow_close, fuel as nat) == Some(
                (a2@, j as int),
            ) && j <= v@.len(),
            None => parse_bar_fields(v@, i as int, acc@, allow_close, fuel as nat) is None,
        },
    decreases fuel,
{
    let n = v.len();
    if fuel == 0 {
        return None;
    }
    let i0 = ws_to(v, i);
    if i0 >= n {
        return None;
    }
    if v[i0] == '}' && allow_close {
        return Some((acc, i0 + 1));
    }
    if v[i0] != '"' {
        return None;
    }
    match parse_string(v, i0 + 1) {
        None => None,
        Some((key, i1)) => {
            let i2 = ws_to(v, i1);
            if !(i2 < n && v[i2] == ':') {
                return None;
            }
            let i3 = ws_to(v, i2 + 1);
            match parse_bar_field_exec(v, i3, acc, &key, fuel) {
                None => None,
                Some((acc2, i4)) => {
                    let i5 = ws_to(v, i4);
                    if i5 < n && v[i5] == ',' {
                        parse_bar_fields_exec(v, i5 + 1, acc2, false, fuel - 1)
                    } else if i5 < n && v[i5] == '}' {
                        Some((acc2, i5 + 1))
                    } else {
                        None
                    }
                },
            }
        },
    }
}

/// Parse the `results` elements, as `parse_bars` describes.
fn parse_bars_exec(v: &Vec<char>, i: usize, acc: Vec<AggregateBar>, allow_close: bool, fuel: u128) -> (r:
    Option<(Vec<AggregateBar>, usize)>)
    requires
        i <= v@.len(),
    ensures
        match r {
            Some((out, j)) => parse_bars(v@, i as int, bars_view(acc@), allow_close, fuel as nat)
                == Some((bars_view(out@), j as int)) && j <= v@.len(),
            None => parse_bars(v@, i as int, bars_view(acc@), allow_close, fuel as nat) is None,
        },
    decreases fuel,
{
    let n = v.len();
    if fuel == 0 {
        return None;
    }
    let i0 = ws_to(v, i);
    if i0 >= n {
        return None;
    }
    if v[i0] == ']' && allow_close {
        return Some((acc, i0 + 1));
    }
    if v[i0] != '{' {
        return None;
    }
    match parse_bar_fields_exec(v, i0 + 1, new_bar_acc(), true, fuel - 1) {
        None => None,
        Some((bacc, i1)) => {
            match bar_from_acc(bacc) {
                None => None,
                Some(bar) => {
                    let ghost barv = bar@;
                    let i2 = ws_to(v, i1);
                    if i2 < n && v[i2] == ',' {
                        let ghost accv = bars_view(acc@);
                        let mut acc2 = acc;
                        acc2.push(bar);
                        proof {
                            assert(bars_view(acc2@) =~= accv.push(barv));
                        }
                        parse_bars_exec(v, i2 + 1, acc2, false, fuel - 1)
                    } else if i2 < n && v[i2] == ']' {
                        let ghost accv = bars_view(acc@);
                        let mut acc2 = acc;
                        acc2.push(bar);
                        proof {
                            assert(bars_view(acc2@) =~= accv.push(barv));
                        }
                        Some((acc2, i2 + 1))
                    } else {
                        None
                    }
                },
            }
        },
    }
}

/// The reply fields collected so far, as executable values.
struct RespAcc {
    adjusted: Option<bool>,
    query_count: Option<i32>,
    request_id: Option<String>,
    results_count: Option<i32>,
    status: Option<String>,
    ticker: Option<String>,
    results: Option<Vec<AggregateBar>>,
}

impl View for RespAcc {
    type V = RespState;

    closed spec fn view(&self) -> RespState {
        RespState {
            adjusted: self.adjusted,
            query_count: match self.query_count {
                Some(x) => Some(x as int),
                None => None,
            },
            request_id: match self.request_id {
                Some(x) => Some(x@),
                None => None,
            },
            results_count: match self.results_count {
                Some(x) => Some(x as int),
                None => None,
            },
            status: match self.status {
                Some(x) => Some(x@),
                None => None,
            },
            ticker: match self.ticker {
                Some(x) => Some(x@),
                None => None,
            },
            results: match self.results {
                Some(x) => Some(bars_view(x@)),
                None => None,
            },
        }
    }
}

fn new_resp_acc() -> (r: RespAcc)
    ensures
        r@ == empty_resp_state(),
{
    RespAcc {
        adjusted: None,
        query_count: None,
        request_id: None,
        results_count: None,
        status: None,
        ticker: None,
        results: None,
    }
}

/// A complete reply from the collected fields, or `None` when one is missing.
fn resp_from_acc(acc: RespAcc) -> (r: Option<AggregateResponse>)
    ensures
        match r {
            Some(resp) => resp_of(acc@) == Some(resp@),
            None => resp_of(acc@) is None,
        },
{
    match (
        acc.adjusted,
        acc.query_count,
        acc.request_id,
        acc.results_count,
        acc.status,
        acc.ticker,
        acc.results,
    ) {
        (
            Some(adjusted),
            Some(query_count),
            Some(request_id),
            Some(results_count),
            Some(status),
            Some(ticker),
            Some(results),
        ) => Some(
            AggregateResponse {
                adjusted,
                query_count,
                request_id,
                results_count,
                status,
                ticker,
                results,
            },
        ),
        _ => None,
    }
}

/// Parse one reply field's value, as `parse_resp_field` describes.
fn parse_resp_field_exec(v: &Vec<char>, i: usize, acc: RespAcc, key: &String, fuel: u128) -> (r:
    Option<(RespAcc, usize)>)
    requires
        i <= v@.len(),
    ensures
        match r {
            Some((a2, j)) => parse_resp_field(v@, i as int, acc@, key@, fuel as nat) == Some(
                (a2@, j as int),
            ) && j <= v@.len(),
            None => parse_resp_field(v@, i as int, acc@, key@, fuel as nat) is None,
        },
{
    let n = v.len();
    if str_eq(key, "adjusted") {
        if acc.adjusted.is_some() {
            return None;
        }
        if n - i >= 4 && v[i] == 't' && v[i + 1] == 'r' && v[i + 2] == 'u' && v[i + 3] == 'e' {
            Some((RespAcc { adjusted: Some(true), ..acc }, i + 4))
        } else if n - i >= 5 && v[i] == 'f' && v[i + 1] == 'a' && v[i + 2] == 'l' && v[i + 3] == 's'
            && v[i + 4] == 'e' {
            Some((RespAcc { adjusted: Some(false), ..acc }, i + 5))
        } else {
            None
        }
    } else if str_eq(key, "queryCount") {
        if acc.query_count.is_some() {
            return None;
        }
        match number_end(v, i) {
            None => None,
            Some(j) => {
                match int32_of_token(v, i, j) {
                    None => None,
                    Some(x) => Some((RespAcc { query_count: Some(x), ..acc }, j)),
                }
            },
        }
    } else if str_eq(key, "request_id") {
        if acc.request_id.is_some() {
            return None;
        }
        if !(i < n && v[i] == '"') {
            return None;
        }
        match parse_string(v, i + 1) {
            None => None,
            Some((t, j)) => Some((RespAcc { request_id: Some(t), ..acc }, j)),
        }
    } else if str_eq(key, "resultsCount") {
        if acc.results_count.is_some() {
            return None;
        }
        match number_end(v, i) {
            None => None,
            Some(j) => {
                match int32_of_token(v, i, j) {
                    None => None,
                    Some(x) => Some((RespAcc { results_count: Some(x), ..acc }, j)),
                }
            },
        }
    } else if str_eq(key, "status") {
        if acc.status.is_some() {
            return None;
        }
        if !(i < n && v[i] == '"') {
            return None;
        }
        match parse_string(v, i + 1) {
            None => None,
            Some((t, j)) => Some((RespAcc { status: Some(t), ..acc }, j)),
        }
    } else if str_eq(key, "ticker") {
        if acc.ticker.is_some() {
            return None;
        }
        if !(i < n && v[i] == '"') {
            return None;
        }
        match parse_string(v, i + 1) {
            None => None,
            Some((t, j)) => Some((RespAcc { ticker: Some(t), ..acc }, j)),
        }
    } else if str_eq(key, "results") {
        if acc.results.is_some() {
            return None;
        }
        if !(i < n && v[i] == '[') {
            return None;
        }
        let empty: Vec<AggregateBar> = Vec::new();
        proof {
            assert(bars_view(empty@) =~= Seq::<BarV>::empty());
        }
        match parse_bars_exec(v, i + 1, empty, true, fuel) {
            None => None,
            Some((bars, j)) => Some((RespAcc { results: Some(bars), ..acc }, j)),
        }
    } else {
        match skip_value_exec(v, i, fuel) {
            None => None,
            Some(j) => Some((acc, j)),
        }
    }
}

/// Parse the reply object's members, as `parse_resp_fields` describes.
fn parse_resp_fields_exec(v: &Vec<char>, i: usize, acc: RespAcc, allow_close: bool, fuel: u128) -> (r:
    Option<(RespAcc, usize)>)
    requires
        i <= v@.len(),
    ensures
        match r {
            Some((a2, j)) => parse_resp_fields(v@, i as int, acc@, allow_close, fuel as nat)
                == Some((a2@, j as int)) && j <= v@.len(),
            None => parse_resp_fields(v@, i as int, acc@, allow_close, fuel as nat) is None,
        },
    decreases fuel,
{
    let n = v.len();
    if fuel == 0 {
        return None;
    }
    let i0 = ws_to(v, i);
    if i0 >= n {
        return None;
    }
    if v[i0] == '}' && allow_close {
        return Some((acc, i0 + 1));
    }
    if v[i0] != '"' {
        return None;
    }
    match parse_string(v, i0 + 1) {
        None => None,
        Some((key, i1)) => {
            let i2 = ws_to(v, i1);
            if !(i2 < n && v[i2] == ':') {
                return None;
            }
            let i3 = ws_to(v, i2 + 1);
            match parse_resp_field_exec(v, i3, acc, &key, fuel) {
                None => None,
                Some((acc2, i4)) => {
                    let i5 = ws_to(v, i4);
                    if i5 < n && v[i5] == ',' {
                        parse_resp_fields_exec(v, i5 + 1, acc2, false, fuel - 1)
                    } else if i5 < n && v[i5] == '}' {
                        Some((acc2, i5 + 1))
                    } else {
                        None
                    }
                },
            }
        },
    }
}

/// Decode a response body against the reply schema: the result is exactly
/// the reply the body denotes, and decoding fails precisely on the bodies
/// that denote none — malformed JSON, a missing or duplicated required
/// field, a value of the wrong type, or trailing text.
pub fn decode_response(body: &str) -> (r: Result<AggregateResponse, FetchError>)
    ensures
        match r {
            Ok(resp) => spec_parse_response(body@) == Some(resp@),
            Err(e) => spec_parse_response(body@) is None && e is Decode,
        },
{
    let v = chars_of(body);
    let n = v.len();
    let fuel: u128 = 2 * (n as u128) + 4;
    let i0 = ws_to(&v, 0);
    if !(i0 < n && v[i0] == '{') {
        return Err(decode_error());
    }
    match parse_resp_fields_exec(&v, i0 + 1, new_resp_acc(), true, fuel) {
        None => Err(decode_error()),
        Some((acc, j)) => {
            let j2 = ws_to(&v, j);
            if j2 != n {
                return Err(decode_error());
            }
            match resp_from_acc(acc) {
                None => Err(decode_error()),
                Some(resp) => Ok(resp),
            }
        },
    }
}

/// The one decoding error, with its message.
fn decode_error() -> (r: FetchError)
    ensures
        r is Decode,
{
    FetchError::Decode(String::from_str("error decoding response body"))
}

} // verus!
