//! What holds of the configuration of the API and of whom it answers.

use vstd::prelude::*;

#[allow(unused_imports)]
use crate::path::join;
#[allow(unused_imports)]
use crate::server::{
    configured, dashboard_root, first_bad, header_value, is_on, listed, loaded, origins_in,
    own_page, unmatched, welcome, Config, Misconfigured, OriginHeader, Unmatched,
};
#[allow(unused_imports)]
use crate::service::env::lookup;
#[allow(unused_imports)]
use crate::text::{split, starts_with, trim};

verus! {

proof fn parts_are_listed(parts: Seq<Seq<char>>)
    ensures
        forall|i: int|
            0 <= i < parts.len() && trim(#[trigger] parts[i]).len() > 0 ==> listed(
                parts,
            ).contains(trim(parts[i])),
        forall|k: int|
            0 <= k < listed(parts).len() ==> (#[trigger] listed(parts)[k]).len() > 0 && exists|
                i: int,
            |
                0 <= i < parts.len() && trim(#[trigger] parts[i]) == listed(parts)[k],
        listed(parts).len() <= parts.len(),
        (forall|i: int| 0 <= i < parts.len() ==> trim(#[trigger] parts[i]).len() > 0) ==> listed(
            parts,
        ).len() == parts.len() && forall|i: int|
            0 <= i < parts.len() ==> #[trigger] listed(parts)[i] == trim(parts[i]),
    decreases parts.len(),
{
    if parts.len() > 0 {
        let front = parts.drop_last();
        parts_are_listed(front);
        let before = listed(front);
        let all = listed(parts);
        let last = trim(parts.last());
        assert forall|i: int| 0 <= i < front.len() implies #[trigger] parts[i] == front[i] by {}
        assert forall|i: int|
            0 <= i < parts.len() && trim(#[trigger] parts[i]).len() > 0 implies all.contains(
            trim(parts[i]),
        ) by {
            if i < front.len() {
                assert(trim(front[i]).len() > 0);
                let k = choose|k: int| 0 <= k < before.len() && before[k] == trim(front[i]);
                assert(all[k] == before[k]);
            } else {
                assert(all[before.len() as int] == last);
            }
        }
        assert forall|k: int| 0 <= k < all.len() implies (#[trigger] all[k]).len() > 0 && exists|
            i: int,
        | 0 <= i < parts.len() && trim(#[trigger] parts[i]) == all[k] by {
            if k < before.len() {
                assert(all[k] == before[k]);
                let i = choose|i: int| 0 <= i < front.len() && trim(#[trigger] front[i]) == before[k];
                assert(parts[i] == front[i]);
            } else {
                assert(trim(parts[parts.len() - 1]) == all[k]);
            }
        }
        if forall|i: int| 0 <= i < parts.len() ==> trim(#[trigger] parts[i]).len() > 0 {
            assert forall|i: int| 0 <= i < front.len() implies trim(#[trigger] front[i]).len()
                > 0 by {
                assert(parts[i] == front[i]);
            }
            assert(trim(parts[parts.len() - 1]).len() > 0);
            assert forall|i: int| 0 <= i < parts.len() implies #[trigger] all[i] == trim(
                parts[i],
            ) by {
                if i < front.len() {
                    assert(all[i] == before[i]);
                }
            }
        }
    }
}

proof fn a_bad_one_is_found(all: Seq<Seq<char>>)
    ensures
        first_bad(all) is None <==> forall|i: int|
            0 <= i < all.len() ==> header_value(#[trigger] all[i]),
        first_bad(all) matches Some(bad) ==> all.contains(bad) && !header_value(bad),
    decreases all.len(),
{
    if all.len() > 0 {
        let front = all.drop_last();
        a_bad_one_is_found(front);
        assert forall|i: int| 0 <= i < front.len() implies #[trigger] all[i] == front[i] by {}
        if first_bad(all) is None {
            assert forall|i: int| 0 <= i < all.len() implies header_value(#[trigger] all[i]) by {
                if i < front.len() {
                    assert(header_value(front[i]));
                }
            }
        }
        match first_bad(front) {
            Some(bad) => {
                let i = choose|i: int| 0 <= i < front.len() && front[i] == bad;
                assert(all[i] == bad);
            },
            None => {
                assert(all[all.len() - 1] == all.last());
            },
        }
    }
}

/// The origins that are allowed are the pieces of the list between its commas, without the
/// white space around them and without those that are blank. The list is refused exactly
/// where one of them may not be the value of a header, and then with such a one.
pub proof fn allowed_origins_are_those_listed(text: Seq<char>)
    ensures
        origins_in(text) matches Ok(all) ==> {
            &&& forall|i: int|
                0 <= i < split(text, ',').len() && trim(#[trigger] split(text, ',')[i]).len() > 0
                    ==> all.contains(trim(split(text, ',')[i]))
            &&& forall|k: int|
                0 <= k < all.len() ==> (#[trigger] all[k]).len() > 0 && header_value(all[k])
                    && exists|i: int|
                    0 <= i < split(text, ',').len() && trim(#[trigger] split(text, ',')[i])
                        == all[k]
        },
        origins_in(text) is Err <==> exists|i: int|
            0 <= i < split(text, ',').len() && trim(#[trigger] split(text, ',')[i]).len() > 0
                && !header_value(trim(split(text, ',')[i])),
        origins_in(text) matches Err(e) ==> (e matches Misconfigured::InvalidOrigin(bad)
            && !header_value(bad)),
{
    let parts = split(text, ',');
    let all = listed(parts);
    parts_are_listed(parts);
    a_bad_one_is_found(all);
    if origins_in(text) is Ok {
        assert forall|i: int|
            0 <= i < parts.len() && trim(#[trigger] parts[i]).len() > 0 implies header_value(
            trim(parts[i]),
        ) by {
            let k = choose|k: int| 0 <= k < all.len() && all[k] == trim(parts[i]);
            assert(header_value(all[k]));
        }
    } else {
        let bad = first_bad(all)->0;
        let k = choose|k: int| 0 <= k < all.len() && all[k] == bad;
        assert(all[k].len() > 0);
        let i = choose|i: int| 0 <= i < parts.len() && trim(#[trigger] parts[i]) == all[k];
        assert(trim(parts[i]).len() > 0 && !header_value(trim(parts[i])));
    }
}

/// An API is configured exactly where its address is one, and either only this host can reach
/// it, or callers authenticate and their calls are encrypted, and its origins are fit to be
/// allowed. It then listens where it was told to.
pub proof fn an_api_listens_where_it_may(
    bind: Seq<char>,
    loopback: Option<bool>,
    origins: Seq<char>,
    authentication: bool,
    tls: bool,
)
    ensures
        configured(bind, loopback, origins, authentication, tls) is Ok <==> loopback is Some && (
        loopback->0 || authentication && tls) && origins_in(origins) is Ok,
        configured(bind, loopback, origins, authentication, tls) matches Ok(config)
            ==> config.bind_addr == bind && Ok::<Seq<Seq<char>>, Misconfigured>(
            config.allowed_origins,
        ) == origins_in(origins) && config.static_root is None,
        loopback == Some(false) && !(authentication && tls) ==> configured(
            bind,
            loopback,
            origins,
            authentication,
            tls,
        ) == Err::<Config, Misconfigured>(Misconfigured::InsecureNonLoopbackBind),
{
}

/// Without a word from the operator the API listens on this host alone, at port 5523, and
/// allows the pages of the development server, but in production no page of another origin.
/// What the operator names counts in place of that.
pub proof fn an_api_is_closed_by_default(
    vars: Seq<(String, String)>,
    loopback: spec_fn(Seq<char>) -> Option<bool>,
    files: spec_fn(Seq<char>) -> bool,
)
    requires
        loaded(vars, loopback, files) is Ok,
    ensures
        ({
            let config = loaded(vars, loopback, files)->Ok_0;
            &&& lookup(vars, "FIRECRAB_BIND_ADDR"@) is None ==> config.bind_addr
                == "127.0.0.1:5523"@
            &&& lookup(vars, "FIRECRAB_BIND_ADDR"@) matches Some(bind) ==> config.bind_addr == bind
            &&& lookup(vars, "FIRECRAB_ALLOWED_ORIGINS"@) is None && lookup(
                vars,
                "FIRECRAB_ENV"@,
            ) == Some("production"@) ==> config.allowed_origins.len() == 0
            &&& lookup(vars, "FIRECRAB_ALLOWED_ORIGINS"@) matches Some(origins) ==> Ok::<
                Seq<Seq<char>>,
                Misconfigured,
            >(config.allowed_origins) == origins_in(origins)
            &&& loopback(config.bind_addr) == Some(true) || (is_on(
                lookup(vars, "FIRECRAB_AUTHENTICATION_ENABLED"@),
            ) && is_on(lookup(vars, "FIRECRAB_TLS_ENABLED"@)))
            &&& config.static_root matches Some(root) ==> lookup(vars, "FIRECRAB_STATIC_ROOT"@)
                == Some(root) && files(join(root, "index.html"@))
            &&& (lookup(vars, "FIRECRAB_STATIC_ROOT"@) matches Some(root) && files(
                join(root, "index.html"@),
            )) ==> config.static_root == lookup(vars, "FIRECRAB_STATIC_ROOT"@)
        }),
{
    let none = Seq::<char>::empty();
    let parts = split(none, ',');
    assert(parts =~= seq![none]);
    assert(parts.drop_last() =~= Seq::empty());
    assert(trim(none).len() == 0);
    assert(listed(parts.drop_last()).len() == 0);
    assert(parts.last() == none);
    assert(listed(parts).len() == 0);
}

/// A request is answered where it names no origin, where its origin is one of those allowed,
/// or where it comes from a page of the very address that it went to, by a scheme of the web;
/// and it is refused otherwise.
pub proof fn a_request_is_answered_by_its_origin(
    allowed: Seq<Seq<char>>,
    origin: OriginHeader,
    authority: Option<Seq<char>>,
)
    ensures
        origin is Absent ==> welcome(allowed, origin, authority),
        origin is Opaque ==> !welcome(allowed, origin, authority),
        origin is Text ==> (welcome(allowed, origin, authority) <==> allowed.contains(
            origin->Text_0@,
        ) || (authority is Some && (origin->Text_0@ == "http://"@ + authority->0
            || origin->Text_0@ == "https://"@ + authority->0))),
{
}

/// What no route takes is answered in JSON below `/api/` and `/ws/`, and wherever there is no
/// dashboard; all else is the dashboard's.
pub proof fn the_dashboard_answers_no_call(path: Seq<char>, dashboard: bool)
    ensures
        unmatched("/api/"@ + path, dashboard) is JsonNotFound,
        unmatched("/ws/"@ + path, dashboard) is JsonNotFound,
        unmatched(path, false) is JsonNotFound,
        unmatched(path, true) is JsonNotFound <==> (path.len() >= 5 && path.take(5) == "/api/"@) || (
        path.len() >= 4 && path.take(4) == "/ws/"@),
{
    reveal_strlit("/api/");
    reveal_strlit("/ws/");
    let a = "/api/"@ + path;
    let w = "/ws/"@ + path;
    assert(a.subrange(0, 5) =~= "/api/"@);
    assert(w.subrange(0, 4) =~= "/ws/"@);
    if path.len() >= 5 {
        assert(path.take(5) =~= path.subrange(0, 5));
    }
    if path.len() >= 4 {
        assert(path.take(4) =~= path.subrange(0, 4));
    }
}

/// A flag is on where its value is `1`, `true` or `yes`, and nowhere else.
pub proof fn a_flag_is_on_by_its_word(value: Option<Seq<char>>)
    ensures
        is_on(value) <==> (value matches Some(word) && (word == "1"@ || word == "true"@ || word
            == "yes"@)),
{
}

} // verus!
