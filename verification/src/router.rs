//! The route registry and the dispatch planner.
//!
//! A `Router` keeps the registered routes in registration order, which is
//! also their invocation order. Dispatching an event does not call any
//! handler here: `plan` computes the exact ordered list of handler
//! invocations, and the embedding application performs them (possibly on a
//! pool of workers).

use vstd::prelude::*;

use crate::event::{Event, EventKind, GeneralSound, text_of};
use crate::matcher::{
    Matcher, groups_view, regex_capture_groups, regex_is_match, regex_valid,
};
use crate::pattern::{modify_command, spec_modify_command};

verus! {

/// One registered route: what it responds to, and the handler value that
/// the embedding application registered for it. Handlers are opaque to the
/// router: it plans their invocation and never calls them.
pub enum Route<H> {
    /// Matches free-form text; its handler receives the raw text and the
    /// ordered capture groups.
    Pattern(Matcher, H),
    /// Matches free-form text; its handler receives only the raw text.
    SimpleText(Matcher, H),
    /// Fires on every photo event.
    Photo(H),
    /// Fires on every video event.
    Video(H),
    /// Fires on every document event.
    Document(H),
    /// Fires on every sticker event.
    Sticker(H),
    /// Fires on every audio event.
    Audio(H),
    /// Fires on every voice event.
    Voice(H),
    /// Fires on every audio and every voice event, tagged with which of
    /// the two it was.
    AnySound(H),
    /// Fires on every contact event.
    Contact(H),
    /// Fires on every location event.
    Location(H),
    /// Fires when a participant enters a group.
    NewParticipant(H),
    /// Fires when a participant leaves a group.
    LeftParticipant(H),
    /// Fires when a group chat's title changes.
    NewTitle(H),
    /// Fires when a group chat's photo changes.
    NewChatPhoto(H),
    /// Fires when a group chat's photo is deleted.
    DeleteChatPhoto(H),
    /// Fires when a group chat is created.
    GroupChatCreated(H),
    /// Fires on every event, before any category-specific route.
    Observer(H),
}

/// What a planned invocation hands to its handler.
#[derive(Debug, PartialEq, Eq)]
pub enum Firing {
    /// An observer invocation: the event alone.
    Observe,
    /// A `SimpleText` route fired: the raw text.
    Text(String),
    /// A `Pattern` route fired: the raw text and the capture groups, with
    /// an empty string substituted for every group that did not
    /// participate in the match.
    Captures(String, Vec<String>),
    /// A media route fired: the event's own typed payload.
    Payload,
    /// An `AnySound` route fired: which audio-like payload to pass.
    Sound(GeneralSound),
}

/// One planned handler invocation: the index of the route in registration
/// order, and what to pass to its handler.
#[derive(Debug, PartialEq, Eq)]
pub struct Invocation {
    /// Index of the route, in registration order.
    pub route: usize,
    /// What the handler receives.
    pub firing: Firing,
}

/// Mathematical model of a `Firing`.
pub ghost enum FiringModel {
    Observe,
    Text(Seq<char>),
    Captures(Seq<char>, Seq<Seq<char>>),
    Payload,
    Sound(GeneralSound),
}

/// Mathematical model of an `Invocation`.
pub ghost struct InvocationModel {
    pub route: int,
    pub firing: FiringModel,
}

/// View of a vector of strings as a sequence of character sequences.
pub open spec fn strings_view(s: Seq<String>) -> Seq<Seq<char>> {
    s.map_values(|x: String| x@)
}

impl View for Firing {
    type V = FiringModel;

    closed spec fn view(&self) -> FiringModel {
        match self {
            Firing::Observe => FiringModel::Observe,
            Firing::Text(t) => FiringModel::Text(t@),
            Firing::Captures(t, caps) => FiringModel::Captures(t@, strings_view(caps@)),
            Firing::Payload => FiringModel::Payload,
            Firing::Sound(g) => FiringModel::Sound(*g),
        }
    }
}

impl View for Invocation {
    type V = InvocationModel;

    closed spec fn view(&self) -> InvocationModel {
        InvocationModel { route: self.route as int, firing: self.firing@ }
    }
}

/// View of a vector of invocations as their models.
pub open spec fn invs_view(s: Seq<Invocation>) -> Seq<InvocationModel> {
    s.map_values(|inv: Invocation| inv@)
}

/// Whether a category route responds to the event. Observers are not
/// category routes: they are planned separately, ahead of these.
pub open spec fn route_fires<H>(r: Route<H>, ev: Event) -> bool {
    match r {
        Route::Pattern(m, _) => ev.kind matches EventKind::Text(t) && regex_is_match(
            m.pattern(),
            t@,
        ),
        Route::SimpleText(m, _) => ev.kind matches EventKind::Text(t) && regex_is_match(
            m.pattern(),
            t@,
        ),
        Route::Photo(_) => ev.kind is Photo,
        Route::Video(_) => ev.kind is Video,
        Route::Document(_) => ev.kind is Document,
        Route::Sticker(_) => ev.kind is Sticker,
        Route::Audio(_) => ev.kind is Audio,
        Route::Voice(_) => ev.kind is Voice,
        Route::AnySound(_) => ev.kind is Audio || ev.kind is Voice,
        Route::Contact(_) => ev.kind is Contact,
        Route::Location(_) => ev.kind is Location,
        Route::NewParticipant(_) => ev.kind is NewParticipant,
        Route::LeftParticipant(_) => ev.kind is LeftParticipant,
        Route::NewTitle(_) => ev.kind is NewTitle,
        Route::NewChatPhoto(_) => ev.kind is NewChatPhoto,
        Route::DeleteChatPhoto(_) => ev.kind is DeleteChatPhoto,
        Route::GroupChatCreated(_) => ev.kind is GroupChatCreated,
        Route::Observer(_) => false,
    }
}

/// The empty-string substitution for capture groups that did not
/// participate in the match: the handler of a `Pattern` route never sees a
/// missing group.
pub open spec fn filled_groups(caps: Seq<Option<Seq<char>>>) -> Seq<Seq<char>> {
    caps.map_values(
        |c: Option<Seq<char>>|
            match c {
                Option::Some(s) => s,
                Option::None => Seq::<char>::empty(),
            },
    )
}

/// What a firing route passes to its handler.
pub open spec fn route_firing<H>(r: Route<H>, ev: Event) -> FiringModel {
    match r {
        Route::Pattern(m, _) => FiringModel::Captures(
            text_of(ev),
            filled_groups(regex_capture_groups(m.pattern(), text_of(ev))),
        ),
        Route::SimpleText(_, _) => FiringModel::Text(text_of(ev)),
        Route::AnySound(_) => FiringModel::Sound(
            if ev.kind is Audio {
                GeneralSound::Audio
            } else {
                GeneralSound::Voice
            },
        ),
        Route::Observer(_) => FiringModel::Observe,
        _ => FiringModel::Payload,
    }
}

/// The observer invocations among the first `n` routes, in registration
/// order.
pub open spec fn observer_plan<H>(routes: Seq<Route<H>>, n: int) -> Seq<InvocationModel>
    decreases n,
{
    if n <= 0 {
        Seq::empty()
    } else {
        observer_plan(routes, n - 1) + if routes[n - 1] is Observer {
            seq![InvocationModel { route: n - 1, firing: FiringModel::Observe }]
        } else {
            Seq::empty()
        }
    }
}

/// The firing category routes among the first `n` routes, in registration
/// order, each with what it passes to its handler.
pub open spec fn category_plan<H>(routes: Seq<Route<H>>, ev: Event, n: int) -> Seq<
    InvocationModel,
>
    decreases n,
{
    if n <= 0 {
        Seq::empty()
    } else {
        category_plan(routes, ev, n - 1) + if route_fires(routes[n - 1], ev) {
            seq![
                InvocationModel {
                    route: n - 1,
                    firing: route_firing(routes[n - 1], ev),
                },
            ]
        } else {
            Seq::empty()
        }
    }
}

/// Every handler invocation that dispatching `ev` against `routes`
/// performs, in order: all observers first, then the firing category
/// routes, each part in registration order.
pub open spec fn dispatch_plan<H>(routes: Seq<Route<H>>, ev: Event) -> Seq<InvocationModel> {
    observer_plan(routes, routes.len() as int) + category_plan(routes, ev, routes.len() as int)
}

/// The route registry of one bot: the bot's username, used when compiling
/// shorthand commands, and the registered routes in registration order.
pub struct Router<H> {
    username: String,
    routes: Vec<Route<H>>,
}

impl<H> Router<H> {
    /// The bot username used for shorthand command compilation.
    pub closed spec fn spec_username(&self) -> Seq<char> {
        self.username@
    }

    /// The registered routes, in registration order.
    pub closed spec fn spec_routes(&self) -> Seq<Route<H>> {
        self.routes@
    }

    /// A fresh registry for a bot with the given username, with no routes.
    pub fn new(username: &str) -> (r: Router<H>)
        ensures
            r.spec_username() == username@,
            r.spec_routes() == Seq::<Route<H>>::empty(),
    {
        Router { username: username.to_owned(), routes: Vec::new() }
    }

    /// The bot username this registry compiles commands for.
    pub fn username(&self) -> (r: &String)
        ensures
            r@ == self.spec_username(),
    {
        &self.username
    }

    /// How many routes are registered.
    pub fn route_count(&self) -> (n: usize)
        ensures
            n == self.spec_routes().len(),
    {
        self.routes.len()
    }

    /// The route registered at position `i`, in registration order.
    pub fn route_at(&self, i: usize) -> (r: &Route<H>)
        requires
            i < self.spec_routes().len(),
        ensures
            *r == self.spec_routes()[i as int],
    {
        &self.routes[i]
    }

    /// Appends one route; used by every registration method.
    fn add(&mut self, route: Route<H>)
        ensures
            final(self).spec_username() == old(self).spec_username(),
            final(self).spec_routes() == old(self).spec_routes().push(route),
    {
        self.routes.push(route);
    }

    /// Registers a shorthand command route with capture groups. The
    /// shorthand is compiled by `modify_command` with this registry's
    /// username; if the compiled pattern is not a valid regular
    /// expression, the registration is silently dropped and the registry
    /// is left unchanged.
    pub fn command(&mut self, pattern: &str, handler: H)
        ensures
            final(self).spec_username() == old(self).spec_username(),
            ({
                let compiled = spec_modify_command(pattern@, old(self).spec_username());
                if regex_valid(compiled) {
                    &&& final(self).spec_routes().len() == old(self).spec_routes().len() + 1
                    &&& final(self).spec_routes().drop_last() == old(self).spec_routes()
                    &&& (final(self).spec_routes().last() matches Route::Pattern(m, h) && m.pattern()
                        == compiled && h == handler)
                } else {
                    final(self).spec_routes() == old(self).spec_routes()
                }
            }),
    {
        let compiled = modify_command(pattern, self.username.as_str());
        match Matcher::compile(compiled.as_str()) {
            Some(m) => {
                self.add(Route::Pattern(m, handler));
                proof {
                    assert(self.spec_routes().drop_last() =~= old(self).spec_routes());
                }
            },
            None => {},
        }
    }

    /// Registers a shorthand command route without capture groups; the
    /// shorthand is compiled exactly as in `command`, and an invalid
    /// compiled pattern is silently dropped in the same way.
    pub fn simple_command(&mut self, pattern: &str, handler: H)
        ensures
            final(self).spec_username() == old(self).spec_username(),
            ({
                let compiled = spec_modify_command(pattern@, old(self).spec_username());
                if regex_valid(compiled) {
                    &&& final(self).spec_routes().len() == old(self).spec_routes().len() + 1
                    &&& final(self).spec_routes().drop_last() == old(self).spec_routes()
                    &&& (final(self).spec_routes().last() matches Route::SimpleText(m, h) && m.pattern()
                        == compiled && h == handler)
                } else {
                    final(self).spec_routes() == old(self).spec_routes()
                }
            }),
    {
        let compiled = modify_command(pattern, self.username.as_str());
        match Matcher::compile(compiled.as_str()) {
            Some(m) => {
                self.add(Route::SimpleText(m, handler));
                proof {
                    assert(self.spec_routes().drop_last() =~= old(self).spec_routes());
                }
            },
            None => {},
        }
    }

    /// Registers a free regular-expression route with capture groups: the
    /// pattern is used as written, with no command rewriting. A
    /// syntactically invalid pattern is silently dropped and the registry
    /// is left unchanged.
    pub fn regex(&mut self, pattern: &str, handler: H)
        ensures
            final(self).spec_username() == old(self).spec_username(),
            regex_valid(pattern@) ==> {
                &&& final(self).spec_routes().len() == old(self).spec_routes().len() + 1
                &&& final(self).spec_routes().drop_last() == old(self).spec_routes()
                &&& (final(self).spec_routes().last() matches Route::Pattern(m, h) && m.pattern()
                    == pattern@ && h == handler)
            },
            !regex_valid(pattern@) ==> final(self).spec_routes() == old(self).spec_routes(),
    {
        match Matcher::compile(pattern) {
            Some(m) => {
                self.add(Route::Pattern(m, handler));
                proof {
                    assert(self.spec_routes().drop_last() =~= old(self).spec_routes());
                }
            },
            None => {},
        }
    }

    /// Registers a free regular-expression route without capture groups;
    /// an invalid pattern is silently dropped as in `regex`.
    pub fn simple_regex(&mut self, pattern: &str, handler: H)
        ensures
            final(self).spec_username() == old(self).spec_username(),
            regex_valid(pattern@) ==> {
                &&& final(self).spec_routes().len() == old(self).spec_routes().len() + 1
                &&& final(self).spec_routes().drop_last() == old(self).spec_routes()
                &&& (final(self).spec_routes().last() matches Route::SimpleText(m, h) && m.pattern()
                    == pattern@ && h == handler)
            },
            !regex_valid(pattern@) ==> final(self).spec_routes() == old(self).spec_routes(),
    {
        match Matcher::compile(pattern) {
            Some(m) => {
                self.add(Route::SimpleText(m, handler));
                proof {
                    assert(self.spec_routes().drop_last() =~= old(self).spec_routes());
                }
            },
            None => {},
        }
    }

    /// Registers an observer route, invoked on every event.
    pub fn any_fn(&mut self, handler: H)
        ensures
            final(self).spec_username() == old(self).spec_username(),
            final(self).spec_routes() == old(self).spec_routes().push(Route::Observer(handler)),
    {
        self.add(Route::Observer(handler));
    }

    /// Registers a photo route.
    pub fn photo_fn(&mut self, handler: H)
        ensures
            final(self).spec_username() == old(self).spec_username(),
            final(self).spec_routes() == old(self).spec_routes().push(Route::Photo(handler)),
    {
        self.add(Route::Photo(handler));
    }

    /// Registers a video route.
    pub fn video_fn(&mut self, handler: H)
        ensures
            final(self).spec_username() == old(self).spec_username(),
            final(self).spec_routes() == old(self).spec_routes().push(Route::Video(handler)),
    {
        self.add(Route::Video(handler));
    }

    /// Registers a document route.
    pub fn document_fn(&mut self, handler: H)
        ensures
            final(self).spec_username() == old(self).spec_username(),
            final(self).spec_routes() == old(self).spec_routes().push(Route::Document(handler)),
    {
        self.add(Route::Document(handler));
    }

    /// Registers a sticker route.
    pub fn sticker_fn(&mut self, handler: H)
        ensures
            final(self).spec_username() == old(self).spec_username(),
            final(self).spec_routes() == old(self).spec_routes().push(Route::Sticker(handler)),
    {
        self.add(Route::Sticker(handler));
    }

    /// Registers an audio route.
    pub fn audio_fn(&mut self, handler: H)
        ensures
            final(self).spec_username() == old(self).spec_username(),
            final(self).spec_routes() == old(self).spec_routes().push(Route::Audio(handler)),
    {
        self.add(Route::Audio(handler));
    }

    /// Registers a voice route.
    pub fn voice_fn(&mut self, handler: H)
        ensures
            final(self).spec_username() == old(self).spec_username(),
            final(self).spec_routes() == old(self).spec_routes().push(Route::Voice(handler)),
    {
        self.add(Route::Voice(handler));
    }

    /// Registers a route fired on both audio and voice events.
    pub fn all_music_fn(&mut self, handler: H)
        ensures
            final(self).spec_username() == old(self).spec_username(),
            final(self).spec_routes() == old(self).spec_routes().push(Route::AnySound(handler)),
    {
        self.add(Route::AnySound(handler));
    }

    /// Registers a contact route.
    pub fn contact_fn(&mut self, handler: H)
        ensures
            final(self).spec_username() == old(self).spec_username(),
            final(self).spec_routes() == old(self).spec_routes().push(Route::Contact(handler)),
    {
        self.add(Route::Contact(handler));
    }

    /// Registers a location route.
    pub fn location_fn(&mut self, handler: H)
        ensures
            final(self).spec_username() == old(self).spec_username(),
            final(self).spec_routes() == old(self).spec_routes().push(Route::Location(handler)),
    {
        self.add(Route::Location(handler));
    }

    /// Registers a route fired when a participant enters a group.
    pub fn new_participant_fn(&mut self, handler: H)
        ensures
            final(self).spec_username() == old(self).spec_username(),
            final(self).spec_routes() == old(self).spec_routes().push(Route::NewParticipant(handler)),
    {
        self.add(Route::NewParticipant(handler));
    }

    /// Registers a route fired when a participant leaves a group.
    pub fn left_participant_fn(&mut self, handler: H)
        ensures
            final(self).spec_username() == old(self).spec_username(),
            final(self).spec_routes() == old(self).spec_routes().push(Route::LeftParticipant(handler)),
    {
        self.add(Route::LeftParticipant(handler));
    }

    /// Registers a route fired when a group chat's title changes.
    pub fn new_title_fn(&mut self, handler: H)
        ensures
            final(self).spec_username() == old(self).spec_username(),
            final(self).spec_routes() == old(self).spec_routes().push(Route::NewTitle(handler)),
    {
        self.add(Route::NewTitle(handler));
    }

    /// Registers a route fired when a group chat's photo changes.
    pub fn new_chat_photo_fn(&mut self, handler: H)
        ensures
            final(self).spec_username() == old(self).spec_username(),
            final(self).spec_routes() == old(self).spec_routes().push(Route::NewChatPhoto(handler)),
    {
        self.add(Route::NewChatPhoto(handler));
    }

    /// Registers a route fired when a group chat's photo is deleted.
    pub fn delete_chat_photo_fn(&mut self, handler: H)
        ensures
            final(self).spec_username() == old(self).spec_username(),
            final(self).spec_routes() == old(self).spec_routes().push(Route::DeleteChatPhoto(handler)),
    {
        self.add(Route::DeleteChatPhoto(handler));
    }

    /// Registers a route fired when a group chat is created.
    pub fn group_chat_created_fn(&mut self, handler: H)
        ensures
            final(self).spec_username() == old(self).spec_username(),
            final(self).spec_routes() == old(self).spec_routes().push(Route::GroupChatCreated(handler)),
    {
        self.add(Route::GroupChatCreated(handler));
    }

    /// Plans the dispatch of one inbound event: the exact ordered list of
    /// handler invocations the dispatcher performs — every observer first,
    /// then every firing category route, each part in registration order.
    pub fn plan(&self, ev: &Event) -> (r: Vec<Invocation>)
        ensures
            invs_view(r@) == dispatch_plan(self.spec_routes(), *ev),
    {
        let n: usize = self.routes.len();
        let mut out: Vec<Invocation> = Vec::new();
        let mut i: usize = 0;
        while i < n
            invariant
                i <= n,
                n == self.routes@.len(),
                invs_view(out@) == observer_plan(self.routes@, i as int),
            decreases n - i,
        {
            match &self.routes[i] {
                Route::Observer(_) => {
                    out.push(Invocation { route: i, firing: Firing::Observe });
                    proof {
                        assert(invs_view(out@) =~= observer_plan(self.routes@, i + 1));
                    }
                },
                _ => {
                    proof {
                        assert(observer_plan(self.routes@, i + 1) =~= observer_plan(
                            self.routes@,
                            i as int,
                        ));
                    }
                },
            }
            i = i + 1;
        }
        let mut j: usize = 0;
        while j < n
            invariant
                j <= n,
                n == self.routes@.len(),
                invs_view(out@) == observer_plan(self.routes@, n as int) + category_plan(
                    self.routes@,
                    *ev,
                    j as int,
                ),
            decreases n - j,
        {
            let fired: Option<Firing> = self.firing_of(j, ev);
            proof {
                if route_fires(self.routes@[j as int], *ev) {
                    assert(category_plan(self.routes@, *ev, j + 1) =~= category_plan(
                        self.routes@,
                        *ev,
                        j as int,
                    ) + seq![
                        InvocationModel {
                            route: j as int,
                            firing: route_firing(self.routes@[j as int], *ev),
                        },
                    ]);
                } else {
                    assert(category_plan(self.routes@, *ev, j + 1) =~= category_plan(
                        self.routes@,
                        *ev,
                        j as int,
                    ));
                }
            }
            let ghost outpre = out@;
            match fired {
                Some(firing) => {
                    out.push(Invocation { route: j, firing });
                    proof {
                        let im = InvocationModel {
                            route: j as int,
                            firing: route_firing(self.routes@[j as int], *ev),
                        };
                        lemma_invs_view_push(outpre, out@.last());
                        assert(out@.last()@ == im);
                        assert(invs_view(outpre).push(im) =~= observer_plan(
                            self.routes@,
                            n as int,
                        ) + category_plan(self.routes@, *ev, j + 1));
                    }
                },
                None => {},
            }
            j = j + 1;
        }
        out
    }

    /// Evaluates one category route against the event: what its handler
    /// receives if the route fires, and `None` if it does not (observers
    /// never fire here: they are planned ahead of the category routes).
    fn firing_of(&self, j: usize, ev: &Event) -> (r: Option<Firing>)
        requires
            j < self.spec_routes().len(),
        ensures
            r is Some <==> route_fires(self.spec_routes()[j as int], *ev),
            r matches Some(f) ==> f@ == route_firing(self.spec_routes()[j as int], *ev),
    {
        match &self.routes[j] {
            Route::Pattern(m, _) => {
                match &ev.kind {
                    EventKind::Text(t) => {
                        if m.is_match(t.as_str()) {
                            match m.captures(t.as_str()) {
                                Some(caps) => {
                                    let filled = fill_captures(caps);
                                    Some(Firing::Captures(t.clone(), filled))
                                },
                                None => {
                                    proof {
                                        assert(false);
                                    }
                                    None
                                },
                            }
                        } else {
                            None
                        }
                    },
                    _ => None,
                }
            },
            Route::SimpleText(m, _) => {
                match &ev.kind {
                    EventKind::Text(t) => {
                        if m.is_match(t.as_str()) {
                            Some(Firing::Text(t.clone()))
                        } else {
                            None
                        }
                    },
                    _ => None,
                }
            },
            Route::Photo(_) => {
                if matches!(&ev.kind, EventKind::Photo) {
                    Some(Firing::Payload)
                } else {
                    None
                }
            },
            Route::Video(_) => {
                if matches!(&ev.kind, EventKind::Video) {
                    Some(Firing::Payload)
                } else {
                    None
                }
            },
            Route::Document(_) => {
                if matches!(&ev.kind, EventKind::Document) {
                    Some(Firing::Payload)
                } else {
                    None
                }
            },
            Route::Sticker(_) => {
                if matches!(&ev.kind, EventKind::Sticker) {
                    Some(Firing::Payload)
                } else {
                    None
                }
            },
            Route::Audio(_) => {
                if matches!(&ev.kind, EventKind::Audio) {
                    Some(Firing::Payload)
                } else {
                    None
                }
            },
            Route::Voice(_) => {
                if matches!(&ev.kind, EventKind::Voice) {
                    Some(Firing::Payload)
                } else {
                    None
                }
            },
            Route::AnySound(_) => {
                match &ev.kind {
                    EventKind::Audio => Some(Firing::Sound(GeneralSound::Audio)),
                    EventKind::Voice => Some(Firing::Sound(GeneralSound::Voice)),
                    _ => None,
                }
            },
            Route::Contact(_) => {
                if matches!(&ev.kind, EventKind::Contact) {
                    Some(Firing::Payload)
                } else {
                    None
                }
            },
            Route::Location(_) => {
                if matches!(&ev.kind, EventKind::Location) {
                    Some(Firing::Payload)
                } else {
                    None
                }
            },
            Route::NewParticipant(_) => {
                if matches!(&ev.kind, EventKind::NewParticipant) {
                    Some(Firing::Payload)
                } else {
                    None
                }
            },
            Route::LeftParticipant(_) => {
                if matches!(&ev.kind, EventKind::LeftParticipant) {
                    Some(Firing::Payload)
                } else {
                    None
                }
            },
            Route::NewTitle(_) => {
                if matches!(&ev.kind, EventKind::NewTitle) {
                    Some(Firing::Payload)
                } else {
                    None
                }
            },
            Route::NewChatPhoto(_) => {
                if matches!(&ev.kind, EventKind::NewChatPhoto) {
                    Some(Firing::Payload)
                } else {
                    None
                }
            },
            Route::DeleteChatPhoto(_) => {
                if matches!(&ev.kind, EventKind::DeleteChatPhoto) {
                    Some(Firing::Payload)
                } else {
                    None
                }
            },
            Route::GroupChatCreated(_) => {
                if matches!(&ev.kind, EventKind::GroupChatCreated) {
                    Some(Firing::Payload)
                } else {
                    None
                }
            },
            Route::Observer(_) => None,
        }
    }
}

/// How many of the planned invocations name route `i`.
pub open spec fn count_route(plan: Seq<InvocationModel>, i: int) -> nat
    decreases plan.len(),
{
    if plan.len() == 0 {
        0
    } else {
        count_route(plan.drop_last(), i) + if plan.last().route == i {
            1nat
        } else {
            0nat
        }
    }
}

proof fn lemma_count_route_concat(a: Seq<InvocationModel>, b: Seq<InvocationModel>, i: int)
    ensures
        count_route(a + b, i) == count_route(a, i) + count_route(b, i),
    decreases b.len(),
{
    if b.len() == 0 {
        assert(a + b =~= a);
    } else {
        lemma_count_route_concat(a, b.drop_last(), i);
        assert((a + b).drop_last() =~= a + b.drop_last());
        assert((a + b).last() == b.last());
    }
}

/// Every entry of `observer_plan(routes, n)` names an observer among the
/// first `n` routes and carries the observer payload.
proof fn lemma_observer_plan_shape<H>(routes: Seq<Route<H>>, n: int)
    requires
        n <= routes.len(),
    ensures
        forall|q: int|
            0 <= q < observer_plan(routes, n).len() ==> (0 <= (#[trigger] observer_plan(
                routes,
                n,
            )[q]).route < n && routes[observer_plan(routes, n)[q].route] is Observer
                && observer_plan(routes, n)[q].firing is Observe),
    decreases n,
{
    if n > 0 {
        lemma_observer_plan_shape(routes, n - 1);
    }
}

/// Every entry of `category_plan(routes, ev, n)` names a firing route
/// among the first `n` routes and carries exactly that route's firing
/// payload, which is never the observer payload.
proof fn lemma_category_plan_shape<H>(routes: Seq<Route<H>>, ev: Event, n: int)
    requires
        n <= routes.len(),
    ensures
        forall|q: int|
            0 <= q < category_plan(routes, ev, n).len() ==> (0 <= (#[trigger] category_plan(
                routes,
                ev,
                n,
            )[q]).route < n && route_fires(routes[category_plan(routes, ev, n)[q].route], ev)
                && category_plan(routes, ev, n)[q].firing == route_firing(
                routes[category_plan(routes, ev, n)[q].route],
                ev,
            ) && !(category_plan(routes, ev, n)[q].firing is Observe)),
    decreases n,
{
    if n > 0 {
        lemma_category_plan_shape(routes, ev, n - 1);
    }
}

/// The position of route `i`'s invocation inside the category part; the
/// part's entries are in strictly increasing route order around it.
proof fn lemma_category_plan_pos<H>(routes: Seq<Route<H>>, ev: Event, i: int, n: int) -> (p: int)
    requires
        0 <= i < n <= routes.len(),
        route_fires(routes[i], ev),
    ensures
        0 <= p < category_plan(routes, ev, n).len(),
        category_plan(routes, ev, n)[p] == (InvocationModel {
            route: i,
            firing: route_firing(routes[i], ev),
        }),
        forall|q: int|
            0 <= q < p ==> (#[trigger] category_plan(routes, ev, n)[q]).route < i,
        forall|q: int|
            p < q < category_plan(routes, ev, n).len() ==> (#[trigger] category_plan(
                routes,
                ev,
                n,
            )[q]).route > i,
    decreases n,
{
    if i == n - 1 {
        lemma_category_plan_shape(routes, ev, n - 1);
        let p = category_plan(routes, ev, n - 1).len() as int;
        p
    } else {
        let p = lemma_category_plan_pos(routes, ev, i, n - 1);
        p
    }
}

proof fn lemma_count_observer_plan<H>(routes: Seq<Route<H>>, n: int, i: int)
    requires
        n <= routes.len(),
    ensures
        count_route(observer_plan(routes, n), i) == if 0 <= i < n && routes[i] is Observer {
            1nat
        } else {
            0nat
        },
    decreases n,
{
    if n > 0 {
        lemma_count_observer_plan(routes, n - 1, i);
        let tail = if routes[n - 1] is Observer {
            seq![InvocationModel { route: n - 1, firing: FiringModel::Observe }]
        } else {
            Seq::<InvocationModel>::empty()
        };
        lemma_count_route_concat(observer_plan(routes, n - 1), tail, i);
        assert(count_route(Seq::<InvocationModel>::empty(), i) == 0);
        if routes[n - 1] is Observer {
            assert(tail.drop_last() =~= Seq::<InvocationModel>::empty());
            assert(tail.last().route == n - 1);
            assert(count_route(tail, i) == if i == n - 1 {
                1nat
            } else {
                0nat
            });
        }
    }
}

proof fn lemma_count_category_plan<H>(routes: Seq<Route<H>>, ev: Event, n: int, i: int)
    requires
        n <= routes.len(),
    ensures
        count_route(category_plan(routes, ev, n), i) == if 0 <= i < n && route_fires(
            routes[i],
            ev,
        ) {
            1nat
        } else {
            0nat
        },
    decreases n,
{
    if n > 0 {
        lemma_count_category_plan(routes, ev, n - 1, i);
        let tail = if route_fires(routes[n - 1], ev) {
            seq![
                InvocationModel {
                    route: n - 1,
                    firing: route_firing(routes[n - 1], ev),
                },
            ]
        } else {
            Seq::<InvocationModel>::empty()
        };
        lemma_count_route_concat(category_plan(routes, ev, n - 1), tail, i);
        assert(count_route(Seq::<InvocationModel>::empty(), i) == 0);
        if route_fires(routes[n - 1], ev) {
            assert(tail.drop_last() =~= Seq::<InvocationModel>::empty());
            assert(tail.last().route == n - 1);
            assert(count_route(tail, i) == if i == n - 1 {
                1nat
            } else {
                0nat
            });
        }
    }
}

/// Law: dispatch fans out — every firing route is invoked. The result is
/// the position of route `i`'s invocation in the plan.
pub proof fn lemma_plan_contains_firing<H>(routes: Seq<Route<H>>, ev: Event, i: int) -> (p: int)
    requires
        0 <= i < routes.len(),
        route_fires(routes[i], ev),
    ensures
        0 <= p < dispatch_plan(routes, ev).len(),
        dispatch_plan(routes, ev)[p] == (InvocationModel {
            route: i,
            firing: route_firing(routes[i], ev),
        }),
{
    let n = routes.len() as int;
    let pi = lemma_category_plan_pos(routes, ev, i, n);
    let off = observer_plan(routes, n).len() as int;
    assert(dispatch_plan(routes, ev)[off + pi] == category_plan(routes, ev, n)[pi]);
    off + pi
}

/// Law: dispatch fans out in registration order — when two routes both
/// fire on one event, both are invoked, and the route registered earlier
/// is invoked earlier. The result is the pair of their positions in the
/// plan.
pub proof fn lemma_fan_out_order<H>(routes: Seq<Route<H>>, ev: Event, i: int, j: int) -> (pq: (
    int,
    int,
))
    requires
        0 <= i < j < routes.len(),
        route_fires(routes[i], ev),
        route_fires(routes[j], ev),
    ensures
        0 <= pq.0 < pq.1 < dispatch_plan(routes, ev).len(),
        dispatch_plan(routes, ev)[pq.0] == (InvocationModel {
            route: i,
            firing: route_firing(routes[i], ev),
        }),
        dispatch_plan(routes, ev)[pq.1] == (InvocationModel {
            route: j,
            firing: route_firing(routes[j], ev),
        }),
{
    let n = routes.len() as int;
    let pi = lemma_category_plan_pos(routes, ev, i, n);
    let pj = lemma_category_plan_pos(routes, ev, j, n);
    assert(pi < pj) by {
        if pj < pi {
            assert(category_plan(routes, ev, n)[pj].route < i);
        }
    }
    let off = observer_plan(routes, n).len() as int;
    assert(dispatch_plan(routes, ev)[off + pi] == category_plan(routes, ev, n)[pi]);
    assert(dispatch_plan(routes, ev)[off + pj] == category_plan(routes, ev, n)[pj]);
    (off + pi, off + pj)
}

/// Law: dispatching one event invokes each registered route exactly once
/// when it applies — always for an observer, when it fires for a category
/// route — and never otherwise.
pub proof fn lemma_route_invoked_exactly_once<H>(routes: Seq<Route<H>>, ev: Event, i: int)
    requires
        0 <= i < routes.len(),
    ensures
        count_route(dispatch_plan(routes, ev), i) == if routes[i] is Observer || route_fires(
            routes[i],
            ev,
        ) {
            1nat
        } else {
            0nat
        },
{
    let n = routes.len() as int;
    lemma_count_observer_plan(routes, n, i);
    lemma_count_category_plan(routes, ev, n, i);
    lemma_count_route_concat(observer_plan(routes, n), category_plan(routes, ev, n), i);
}

/// Law: observers come first — within one plan, every observer invocation
/// precedes every category invocation.
pub proof fn lemma_observers_first<H>(routes: Seq<Route<H>>, ev: Event, p: int, q: int)
    requires
        0 <= p < dispatch_plan(routes, ev).len(),
        0 <= q < dispatch_plan(routes, ev).len(),
        dispatch_plan(routes, ev)[p].firing is Observe,
        !(dispatch_plan(routes, ev)[q].firing is Observe),
    ensures
        p < q,
{
    let n = routes.len() as int;
    lemma_observer_plan_shape(routes, n);
    lemma_category_plan_shape(routes, ev, n);
    let off = observer_plan(routes, n).len() as int;
    if p >= off {
        assert(dispatch_plan(routes, ev)[p] == category_plan(routes, ev, n)[p - off]);
    }
    if q < off {
        assert(dispatch_plan(routes, ev)[q] == observer_plan(routes, n)[q]);
    }
}

/// Law: the plan invokes only routes that apply — each planned invocation
/// names a registered route: an observer with the observer payload, or a
/// firing category route with exactly its firing payload.
pub proof fn lemma_plan_sound<H>(routes: Seq<Route<H>>, ev: Event, p: int)
    requires
        0 <= p < dispatch_plan(routes, ev).len(),
    ensures
        0 <= dispatch_plan(routes, ev)[p].route < routes.len(),
        dispatch_plan(routes, ev)[p].firing is Observe ==> routes[dispatch_plan(
            routes,
            ev,
        )[p].route] is Observer,
        !(dispatch_plan(routes, ev)[p].firing is Observe) ==> route_fires(
            routes[dispatch_plan(routes, ev)[p].route],
            ev,
        ) && dispatch_plan(routes, ev)[p].firing == route_firing(
            routes[dispatch_plan(routes, ev)[p].route],
            ev,
        ),
{
    let n = routes.len() as int;
    lemma_observer_plan_shape(routes, n);
    lemma_category_plan_shape(routes, ev, n);
    let off = observer_plan(routes, n).len() as int;
    if p < off {
        assert(dispatch_plan(routes, ev)[p] == observer_plan(routes, n)[p]);
    } else {
        assert(dispatch_plan(routes, ev)[p] == category_plan(routes, ev, n)[p - off]);
    }
}

/// Appending an invocation commutes with taking views.
proof fn lemma_invs_view_push(s: Seq<Invocation>, x: Invocation)
    ensures
        invs_view(s.push(x)) == invs_view(s).push(x@),
{
    assert(invs_view(s.push(x)) =~= invs_view(s).push(x@));
}

/// Appending a string commutes with taking views.
proof fn lemma_strings_view_push(s: Seq<String>, x: String)
    ensures
        strings_view(s.push(x)) == strings_view(s).push(x@),
{
    assert(strings_view(s.push(x)) =~= strings_view(s).push(x@));
}

/// Appending a group commutes with the empty-string substitution.
proof fn lemma_fill_push(caps: Seq<Option<String>>, x: Option<String>)
    ensures
        filled_groups(groups_view(caps.push(x))) == filled_groups(groups_view(caps)).push(
            match x {
                Option::Some(s) => s@,
                Option::None => Seq::<char>::empty(),
            },
        ),
{
    assert(filled_groups(groups_view(caps.push(x))) =~= filled_groups(groups_view(caps)).push(
        match x {
            Option::Some(s) => s@,
            Option::None => Seq::<char>::empty(),
        },
    ));
}

/// Substitutes an empty string for every capture group that did not
/// participate in the match.
fn fill_captures(caps: Vec<Option<String>>) -> (r: Vec<String>)
    ensures
        strings_view(r@) == filled_groups(groups_view(caps@)),
{
    let n: usize = caps.len();
    let mut r: Vec<String> = Vec::new();
    let mut i: usize = 0;
    while i < n
        invariant
            i <= n,
            n == caps@.len(),
            strings_view(r@) == filled_groups(groups_view(caps@.take(i as int))),
        decreases n - i,
    {
        let ghost rpre = r@;
        let ghost gpre = caps@.take(i as int);
        match &caps[i] {
            Some(s) => r.push(s.clone()),
            None => r.push(String::new()),
        }
        proof {
            let v = r@.last();
            assert(r@ == rpre.push(v));
            assert(v@ == (match caps@[i as int] {
                Option::Some(s) => s@,
                Option::None => Seq::<char>::empty(),
            }));
            lemma_strings_view_push(rpre, v);
            lemma_fill_push(gpre, caps@[i as int]);
            assert(caps@.take(i + 1) =~= gpre.push(caps@[i as int]));
            assert(strings_view(r@) == filled_groups(groups_view(caps@.take(i + 1))));
        }
        i = i + 1;
    }
    proof {
        assert(caps@.take(n as int) =~= caps@);
    }
    r
}

} // verus!
