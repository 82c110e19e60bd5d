//! What a connection does with what the user gave, what is remembered and what the
//! host says.

use vstd::prelude::*;
use crate::client_config::ClientConfigView;
use crate::connect::{ConnectActionView, ConnectEventView, ConnectPhase, ConnectRunView};
use crate::proto::h1_of;
use crate::session::{
    ascii_lower, default_app, desktop_app, known_h1, moonlight_host_of, same_ignoring_case, EventView,
    ResolvedView,
};
use crate::text::decimal;

verus! {

/// The stream has the app that the user names; where none is named, the app of the
/// last session with the host; and only where there was none, one from the host's
/// list.
pub proof fn the_last_app_is_streamed_again(
    run: ConnectRunView,
    cfg: ClientConfigView,
    ev: ConnectEventView,
    a: Seq<char>,
    apps: Seq<Seq<char>>,
)
    ensures
        run.step(cfg, ev).action matches ConnectActionView::Stream { host, app, args } ==> {
            &&& run.app == Some(a) ==> app == a
            &&& run.app is None && cfg.host(run.id).last_app == Some(a) ==> app == a
        },
        run.app is None && cfg.host(run.id).last_app is None && run.phase == ConnectPhase::Listing
            ==> (run.step(cfg, ConnectEventView::Listed(Ok(apps))).action
            matches ConnectActionView::Stream { host, app, args } && app == default_app(apps)),
        run.app == Some(a) || cfg.host(run.id).last_app == Some(a) ==> run.step(
            cfg,
            ConnectEventView::PairEnded(Ok(())),
        ).action is Stream,
        run.app is None && cfg.host(run.id).last_app is None ==> run.step(
            cfg,
            ConnectEventView::PairEnded(Ok(())),
        ).action == ConnectActionView::ListApps(run.host),
{
}

/// A stream goes to the host that was resolved, with the arguments of the settings
/// and then those of this connection, and the settings remember it: the name, where
/// the host was found and which app ran. What else is remembered of the host, and all
/// other hosts, stay as they are.
pub proof fn streams_are_remembered(
    run: ConnectRunView,
    cfg: ClientConfigView,
    apps: Seq<Seq<char>>,
    other: Seq<char>,
)
    requires
        run.phase == ConnectPhase::Listing,
    ensures
        ({
            let step = run.step(cfg, ConnectEventView::Listed(Ok(apps)));
            let after = step.cfg.host(run.id);
            &&& step.action is Stream
            &&& step.action->host == run.host
            &&& step.action->args.len() == cfg.stream_args.len() + run.extra.len()
            &&& step.action->args.take(cfg.stream_args.len() as int) == cfg.stream_args
            &&& step.action->args.skip(cfg.stream_args.len() as int) == run.extra
            &&& step.cfg.hosts.contains_key(run.id)
            &&& after.name == run.name
            &&& after.last_endpoint == Some(run.host)
            &&& after.last_app == Some(step.action->app)
            &&& after.password_h1 == cfg.host(run.id).password_h1
            &&& after.password_salt == cfg.host(run.id).password_salt
            &&& after.server_cert_pem == cfg.host(run.id).server_cert_pem
            &&& other != run.id ==> step.cfg.host(other) == cfg.host(other)
            &&& step.cfg.stream_args == cfg.stream_args
        }),
{
    let step = run.step(cfg, ConnectEventView::Listed(Ok(apps)));
    assert(step.action->args.take(cfg.stream_args.len() as int) =~= cfg.stream_args);
    assert(step.action->args.skip(cfg.stream_args.len() as int) =~= run.extra);
}

/// A host that is resolved is asked for its apps where Moonlight finds it, and the
/// connection keeps its name and the salt of its password; a host that is not resolved
/// ends the connection in the words of the error.
pub proof fn resolved_hosts_are_asked_for_apps(
    run: ConnectRunView,
    cfg: ClientConfigView,
    r: ResolvedView,
    e: Seq<char>,
)
    ensures
        ({
            let step = run.step(cfg, ConnectEventView::Resolved(Ok(r)));
            &&& step.action == ConnectActionView::ListApps(moonlight_host_of(r.host, r.http_port))
            &&& step.run.host == moonlight_host_of(r.host, r.http_port)
            &&& step.run.name == r.info.name
            &&& step.run.salt == r.info.password_salt
            &&& step.run.fits(ConnectEventView::Listed(Err(e)))
            &&& step.cfg == cfg
        }),
        run.step(cfg, ConnectEventView::Resolved(Err(e))).action == ConnectActionView::Fail(e),
        run.step(cfg, ConnectEventView::Typed(Err(e))).action == ConnectActionView::Fail(e),
{
}

/// A host that Moonlight cannot list is paired with: at once where the password is
/// given or remembered, and otherwise with what the user types, hashed with the salt
/// of the host.
pub proof fn unpaired_hosts_are_paired_with(
    run: ConnectRunView,
    cfg: ClientConfigView,
    e: Seq<char>,
    typed: Seq<char>,
)
    requires
        run.phase == ConnectPhase::Listing,
    ensures
        ({
            let step = run.step(cfg, ConnectEventView::Listed(Err(e)));
            let then = step.run.step(cfg, ConnectEventView::Typed(Ok(typed)));
            &&& step.cfg == cfg && step.event is None
            &&& known_h1(cfg, run.id, run.salt, run.password) matches Some(h1) ==> step.action
                == ConnectActionView::Pair(h1) && step.run.h1 == h1 && step.run.fits(
                ConnectEventView::PairEnded(Ok(())),
            )
            &&& known_h1(cfg, run.id, run.salt, run.password) is None ==> {
                &&& step.action is AskPassword
                &&& step.run.fits(ConnectEventView::Typed(Ok(typed)))
                &&& then.action == ConnectActionView::Pair(h1_of(typed, run.salt))
                &&& then.run.h1 == h1_of(typed, run.salt)
            }
        }),
{
}

/// A host of which nothing is remembered, or whose password has another salt by now,
/// needs a password.
pub proof fn unknown_hosts_need_a_password(cfg: ClientConfigView, id: Seq<char>, salt: Seq<char>)
    ensures
        !cfg.hosts.contains_key(id) ==> known_h1(cfg, id, salt, None) is None,
        cfg.host(id).password_salt != Some(salt) ==> known_h1(cfg, id, salt, None) is None,
        cfg.hosts.contains_key(id) && cfg.hosts[id].password_salt == Some(salt) ==> known_h1(
            cfg,
            id,
            salt,
            None,
        ) == cfg.hosts[id].password_h1,
{
}

/// A host is written for Moonlight with its port behind a colon, and in brackets where
/// it has colons itself.
pub proof fn moonlight_finds_the_host(host: Seq<char>, port: u16)
    ensures
        ({
            let s = moonlight_host_of(host, port);
            let tail = ":"@ + decimal(port as nat);
            let front = s.take(s.len() - tail.len());
            &&& s.len() >= tail.len() && s.skip(s.len() - tail.len()) == tail
            &&& !host.contains(':') ==> front == host
            &&& host.contains(':') ==> front.len() == host.len() + 2 && front[0] == '['
                && front.last() == ']' && front.subrange(1, 1 + host.len() as int) == host
        }),
{
    reveal_strlit(":");
    reveal_strlit("[");
    reveal_strlit("]");
    let s = moonlight_host_of(host, port);
    let tail = ":"@ + decimal(port as nat);
    let front = if host.contains(':') {
        "["@ + host + "]"@
    } else {
        host
    };
    assert(s =~= front + tail);
    assert(s.take(s.len() - tail.len()) =~= front);
    assert(s.skip(s.len() - tail.len()) =~= tail);
    if host.contains(':') {
        assert(front.subrange(1, 1 + host.len() as int) =~= host);
    }
}

/// Letters count as the same in either case, and nothing else is taken for the same.
pub proof fn only_case_is_ignored(c: char, a: Seq<char>)
    ensures
        0x41 <= c as u32 <= 0x5A ==> ascii_lower(c) as u32 == c as u32 + 0x20,
        !(0x41 <= c as u32 <= 0x5A) ==> ascii_lower(c) == c,
        same_ignoring_case(a, a),
        forall|b: Seq<char>| same_ignoring_case(a, b) ==> a.len() == b.len(),
        forall|b: Seq<char>, i: int|
            same_ignoring_case(a, b) && 0 <= i < a.len() ==> ascii_lower(#[trigger] a[i])
                == ascii_lower(#[trigger] b[i]),
{
}

/// Of a list the first app that is called desktop is taken, in whatever case; where
/// there is none, the first app; and of an empty list, `Desktop`.
pub proof fn the_desktop_is_the_default(apps: Seq<Seq<char>>, i: int)
    ensures
        apps.len() == 0 ==> default_app(apps) == "Desktop"@,
        apps.len() > 0 ==> apps.contains(default_app(apps)),
        apps.len() > 0 && (forall|j: int|
            0 <= j < apps.len() ==> !same_ignoring_case(#[trigger] apps[j], "desktop"@))
            ==> default_app(apps) == apps[0],
        0 <= i < apps.len() && same_ignoring_case(apps[i], "desktop"@) && (forall|j: int|
            0 <= j < i ==> !same_ignoring_case(#[trigger] apps[j], "desktop"@)) ==> default_app(
            apps,
        ) == apps[i],
{
    lemma_desktop_app(apps, i);
    if apps.len() > 0 && desktop_app(apps) is None {
        assert(apps[0] == default_app(apps));
    }
}

proof fn lemma_desktop_app(apps: Seq<Seq<char>>, i: int)
    ensures
        desktop_app(apps) matches Some(a) ==> apps.contains(a) && same_ignoring_case(
            a,
            "desktop"@,
        ),
        desktop_app(apps) is None <==> forall|j: int|
            0 <= j < apps.len() ==> !same_ignoring_case(#[trigger] apps[j], "desktop"@),
        0 <= i < apps.len() && same_ignoring_case(apps[i], "desktop"@) && (forall|j: int|
            0 <= j < i ==> !same_ignoring_case(#[trigger] apps[j], "desktop"@)) ==> desktop_app(
            apps,
        ) == Some(apps[i]),
    decreases apps.len(),
{
    if apps.len() > 0 {
        if same_ignoring_case(apps[0], "desktop"@) {
            assert(apps.contains(apps[0]));
        } else {
            let rest = apps.drop_first();
            lemma_desktop_app(rest, i - 1);
            assert forall|j: int| 0 <= j < rest.len() implies #[trigger] rest[j] == apps[j + 1] by {}
            if let Some(a) = desktop_app(rest) {
                let k = choose|k: int| 0 <= k < rest.len() && rest[k] == a;
                assert(apps[k + 1] == a);
            }
            if desktop_app(rest) is None {
                assert forall|j: int| 0 <= j < apps.len() implies !same_ignoring_case(
                    #[trigger] apps[j],
                    "desktop"@,
                ) by {
                    if j > 0 {
                        assert(rest[j - 1] == apps[j]);
                    }
                }
            } else {
                let k = choose|k: int|
                    0 <= k < rest.len() && same_ignoring_case(#[trigger] rest[k], "desktop"@);
                assert(same_ignoring_case(apps[k + 1], "desktop"@));
            }
            if 0 < i < apps.len() {
                assert(rest[i - 1] == apps[i]);
            }
        }
    }
}

/// A connection tells that the host was paired already only where it found it so.
pub proof fn already_paired_is_told_once(
    run: ConnectRunView,
    cfg: ClientConfigView,
    ev: ConnectEventView,
)
    ensures
        run.step(cfg, ev).event == Some(EventView::AlreadyPaired) <==> run.phase
            == ConnectPhase::Listing && ev is Listed && ev->Listed_0 is Ok,
        run.step(cfg, ev).event is Some ==> run.step(cfg, ev).event == Some(
            EventView::AlreadyPaired,
        ),
{
}

/// What is remembered of a host is changed by nothing but the host's own connection:
/// no event touches another host or the rest of the settings.
pub proof fn other_hosts_are_left_alone(
    run: ConnectRunView,
    cfg: ClientConfigView,
    ev: ConnectEventView,
    other: Seq<char>,
)
    requires
        other != run.id,
    ensures
        ({
            let after = run.step(cfg, ev).cfg;
            &&& after.host(other) == cfg.host(other)
            &&& after.hosts.contains_key(other) == cfg.hosts.contains_key(other)
            &&& after.rendezvous_url == cfg.rendezvous_url
            &&& after.device_name == cfg.device_name
            &&& after.stream_args == cfg.stream_args
            &&& after.moonlight_path == cfg.moonlight_path
        }),
{
}

} // verus!
