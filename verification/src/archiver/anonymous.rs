//! Masking of names: every real name gets an alias, and bodies are rewritten
//! so that they show the aliases.

use vstd::prelude::*;
use vstd::string::*;
use crate::archiver::utils::group_text;
use crate::error::Error;
use crate::models::Post;
use crate::pattern::{captures, regex_captures, regex_replace_each, replace_each};
use crate::text::{
    contains_seq, lemma_replaced_leaves_none, lemma_trim_bounds, seq_apart,
    concat3, index_of_string, push_string, replace_chars, replaced, string_of, to_chars,
    trim_bounds, trimmed,
};

verus! {

/// How long an ASCII name has to be, once trimmed, to be replaced wherever
/// it stands in a body.
pub const MIN_ASCII_NAME_LENGTH: usize = 5;

/// How long any other name has to be, once trimmed, to be replaced wherever
/// it stands in a body.
pub const MIN_UNICODE_NAME_LENGTH: usize = 2;

/// The three places in a body that name somebody.
#[derive(Debug, Clone, Copy, PartialEq, Eq, Structural)]
pub enum NamePattern {
    /// A mention: `@name` in a link to the user's page.
    Mention,
    /// The header of a quotation: the avatar, then `name:`.
    Quote,
    /// The attribution of a forwarded post.
    Forwarded,
}

/// The regular expression of each pattern; its first group is the name.
pub open spec fn spec_pattern(kind: NamePattern) -> Seq<char> {
    match kind {
        NamePattern::Mention => "<a class=\"mention\" href=\"/u/.*\">@(.*)</a>"@,
        NamePattern::Quote => "<img .* src=\".*\" class=\"avatar\"> (.*):</div>"@,
        NamePattern::Forwarded => "来自 (.*)</a>"@,
    }
}

/// What a match of each pattern is replaced by, given the alias.
pub open spec fn spec_masked(kind: NamePattern, alias: Seq<char>) -> Seq<char> {
    match kind {
        NamePattern::Mention => "<a class=\"mention\">@"@ + alias + "</a>"@,
        NamePattern::Quote => " "@ + alias + ":</div>"@,
        NamePattern::Forwarded => "来自 "@ + alias + "</a>"@,
    }
}

/// The regular expression of a pattern.
pub fn pattern(kind: NamePattern) -> (r: &'static str)
    ensures
        r@ == spec_pattern(kind),
{
    match kind {
        NamePattern::Mention => "<a class=\"mention\" href=\"/u/.*\">@(.*)</a>",
        NamePattern::Quote => "<img .* src=\".*\" class=\"avatar\"> (.*):</div>",
        NamePattern::Forwarded => "来自 (.*)</a>",
    }
}

/// What a match of a pattern is replaced by, given the alias.
pub fn masked(kind: NamePattern, alias: &str) -> (r: String)
    ensures
        r@ == spec_masked(kind, alias@),
{
    match kind {
        NamePattern::Mention => concat3("<a class=\"mention\">@", alias, "</a>"),
        NamePattern::Quote => concat3(" ", alias, ":</div>"),
        NamePattern::Forwarded => concat3("来自 ", alias, "</a>"),
    }
}

/// Tells whether every character of `s` is ASCII.
pub open spec fn all_ascii(s: Seq<char>) -> bool {
    forall|i: int| 0 <= i < s.len() ==> (#[trigger] s[i] as u32) < 128
}

/// Tells whether a name is replaced wherever it stands in a body: an ASCII
/// name of at least five characters, any other of at least two, white space
/// at both ends not counted.
pub open spec fn is_masked_everywhere(name: Seq<char>) -> bool {
    if all_ascii(name) {
        trimmed(name).len() >= MIN_ASCII_NAME_LENGTH
    } else {
        trimmed(name).len() >= MIN_UNICODE_NAME_LENGTH
    }
}

fn chars_all_ascii(v: &Vec<char>) -> (r: bool)
    ensures
        r == all_ascii(v@),
{
    let mut i: usize = 0;
    while i < v.len()
        invariant
            i <= v.len(),
            forall|j: int| 0 <= j < i ==> (#[trigger] v@[j] as u32) < 128,
        decreases v.len() - i,
    {
        if v[i] as u32 >= 128 {
            return false;
        }
        i += 1;
    }
    true
}

/// Tells whether a name is replaced wherever it stands in a body.
pub fn masked_everywhere(name: &Vec<char>) -> (r: bool)
    ensures
        r == is_masked_everywhere(name@),
{
    let (start, end) = trim_bounds(name);
    let length: usize = end - start;
    if chars_all_ascii(name) {
        length >= MIN_ASCII_NAME_LENGTH
    } else {
        length >= MIN_UNICODE_NAME_LENGTH
    }
}

/// Calls `fake`'s generator of English full names, which draws from the
/// thread's random number generator. Which name comes is not stated; stated
/// is what the generator's template shows of every outcome: a first name, a
/// space and a last name, so at least one character.
#[verifier::external_body]
pub(crate) fn fake_name() -> (alias: String)
    ensures
        alias@.len() > 0,
{
    fake::Fake::fake::<String>(&fake::faker::name::en::Name())
}

/// The aliases of a run: real name to alias, in the order in which the
/// names were first seen.
#[derive(Debug, Clone)]
pub struct NameMap {
    names: Vec<String>,
    aliases: Vec<String>,
}

impl NameMap {
    /// The real names, in the order in which they were first seen.
    pub closed spec fn names(&self) -> Seq<Seq<char>> {
        self.names.deep_view()
    }

    /// The alias of each name, in the same order.
    pub closed spec fn aliases(&self) -> Seq<Seq<char>> {
        self.aliases.deep_view()
    }

    /// Every name stands once and has its alias.
    pub closed spec fn wf(&self) -> bool {
        self.names.deep_view().no_duplicates() && self.names.len() == self.aliases.len()
    }

    /// Tells whether `name` has an alias.
    pub open spec fn contains(&self, name: Seq<char>) -> bool {
        self.names().contains(name)
    }

    /// The alias of `name`; meaningful where it has one.
    pub open spec fn alias_of(&self, name: Seq<char>) -> Seq<char> {
        self.aliases()[self.names().index_of(name)]
    }

    /// Tells whether every alias holds at least one character.
    pub open spec fn spec_aliases_filled(&self) -> bool {
        spec_filled(self.names(), self.aliases())
    }

    /// Tells whether every name of `before` is still there, with the alias
    /// that it had.
    pub open spec fn spec_keeps(&self, before: NameMap) -> bool {
        forall|name: Seq<char>|
            before.contains(name) ==> self.contains(name) && self.alias_of(name)
                == before.alias_of(name)
    }

    /// Tells whether the names and aliases of `before` are still there, in
    /// their places.
    pub open spec fn spec_grown_from(&self, before: NameMap) -> bool {
        &&& before.names().len() <= self.names().len()
        &&& before.aliases().len() <= self.aliases().len()
        &&& forall|i: int| 0 <= i < before.names().len() ==> self.names()[i] == before.names()[i]
        &&& forall|i: int|
            0 <= i < before.aliases().len() ==> self.aliases()[i] == before.aliases()[i]
    }

    /// The lengths agree.
    pub proof fn lemma_wf(&self)
        requires
            self.wf(),
        ensures
            self.names().no_duplicates(),
            self.names().len() == self.aliases().len(),
    {
    }

    /// A map without names.
    pub fn new() -> (map: NameMap)
        ensures
            map.wf(),
            map.names() == Seq::<Seq<char>>::empty(),
            map.aliases() == Seq::<Seq<char>>::empty(),
    {
        let map = NameMap { names: Vec::new(), aliases: Vec::new() };
        assert(map.names.deep_view() =~= Seq::<Seq<char>>::empty());
        assert(map.aliases.deep_view() =~= Seq::<Seq<char>>::empty());
        map
    }

    /// How many names have an alias.
    pub fn len(&self) -> (n: usize)
        requires
            self.wf(),
        ensures
            n == self.names().len(),
    {
        self.names.len()
    }

    /// The `i`-th name and its alias.
    pub fn entry(&self, i: usize) -> (r: (&str, &str))
        requires
            self.wf(),
            i < self.names().len(),
        ensures
            r.0@ == self.names()[i as int],
            r.1@ == self.aliases()[i as int],
    {
        assert(self.names.deep_view()[i as int] == self.names@[i as int]@);
        assert(self.aliases.deep_view()[i as int] == self.aliases@[i as int]@);
        (self.names[i].as_str(), self.aliases[i].as_str())
    }

    /// The alias of `name`, if it has one.
    pub fn get(&self, name: &str) -> (r: Option<&str>)
        requires
            self.wf(),
        ensures
            match r {
                Some(alias) => self.contains(name@) && alias@ == self.alias_of(name@),
                None => !self.contains(name@),
            },
    {
        match index_of_string(&self.names, name) {
            Some(i) => {
                proof {
                    let keys = self.names.deep_view();
                    assert(keys.index_of(name@) == i) by {
                        assert(keys[keys.index_of(name@)] == name@);
                    }
                    assert(self.aliases.deep_view()[i as int] == self.aliases@[i as int]@);
                }
                Some(self.aliases[i].as_str())
            },
            None => None,
        }
    }

    /// Takes in a name that has no alias yet.
    fn append(&mut self, name: String, alias: String)
        requires
            old(self).wf(),
            !old(self).contains(name@),
        ensures
            final(self).wf(),
            final(self).names() == old(self).names().push(name@),
            final(self).aliases() == old(self).aliases().push(alias@),
    {
        proof {
            crate::text::lemma_push_fresh(self.names.deep_view(), name@);
        }
        push_string(&mut self.names, name);
        push_string(&mut self.aliases, alias);
    }

    /// Takes in the author of a post, so that the username and the display
    /// name both have an alias, and one and the same wherever that can be
    /// without taking an alias away. Where neither has one, both get
    /// `alias`. Where one of them has one, the other gets that same alias.
    /// Where both have one, nothing changes.
    #[verifier::rlimit(40)]
    pub fn add_author(&mut self, username: String, name: String, alias: String)
        requires
            old(self).wf(),
        ensures
            final(self).wf(),
            final(self).names() == spec_with_author(old(self).names(), username@, name@),
            final(self).aliases() == spec_aliases_with_author(
                old(self).names(),
                old(self).aliases(),
                username@,
                name@,
                alias@,
            ),
            final(self).contains(username@),
            final(self).contains(name@),
            !(old(self).contains(username@) && old(self).contains(name@)) ==> final(self).alias_of(
                username@,
            ) == final(self).alias_of(name@),
            !old(self).contains(username@) && !old(self).contains(name@) ==> final(self).alias_of(
                username@,
            ) == alias@,
            final(self).spec_keeps(*old(self)),
            final(self).spec_grown_from(*old(self)),
            forall|other: Seq<char>|
                final(self).contains(other) ==> old(self).contains(other) || other == username@
                    || other == name@,
            old(self).spec_aliases_filled() && (alias@.len() > 0 || old(self).contains(username@)
                || old(self).contains(name@)) ==> final(self).spec_aliases_filled(),
    {
        let ghost names = self.names.deep_view();
        let ghost aliases = self.aliases.deep_view();
        proof {
            self.lemma_wf();
        }
        let of_username: Option<String> = match self.get(username.as_str()) {
            Some(known) => Some(String::from_str(known)),
            None => None,
        };
        let of_name: Option<String> = match self.get(name.as_str()) {
            Some(known) => Some(String::from_str(known)),
            None => None,
        };
        match of_username {
            Some(known) => {
                match of_name {
                    Some(_) => {},
                    None => {
                        proof {
                            lemma_pushed(names, aliases, name@, known@);
                            assert(known@ == aliases[names.index_of(username@)]);
                            if old(self).spec_aliases_filled() {
                                lemma_pushed_filled(names, aliases, name@, known@);
                            }
                        }
                        self.append(name, known);
                    },
                }
            },
            None => {
                match of_name {
                    Some(known) => {
                        proof {
                            lemma_pushed(names, aliases, username@, known@);
                            assert(known@ == aliases[names.index_of(name@)]);
                            if old(self).spec_aliases_filled() {
                                lemma_pushed_filled(names, aliases, username@, known@);
                            }
                        }
                        self.append(username, known);
                    },
                    None => {
                        proof {
                            lemma_pushed(names, aliases, username@, alias@);
                            if old(self).spec_aliases_filled() && alias@.len() > 0 {
                                lemma_pushed_filled(names, aliases, username@, alias@);
                            }
                        }
                        if username == name {
                            self.append(username, alias);
                        } else {
                            self.append(username, alias.clone());
                            proof {
                                let grown = names.push(username@);
                                assert(!grown.contains(name@)) by {
                                    if grown.contains(name@) {
                                        let i = grown.index_of(name@);
                                        assert(grown[i] == name@);
                                        if i < names.len() {
                                            assert(names[i] == name@);
                                        }
                                    }
                                }
                                lemma_pushed(grown, aliases.push(alias@), name@, alias@);
                                if old(self).spec_aliases_filled() && alias@.len() > 0 {
                                    lemma_pushed_filled(grown, aliases.push(alias@), name@, alias@);
                                }
                            }
                            self.append(name, alias);
                        }
                    },
                }
            },
        }
    }

    /// Takes in a name that a body holds: it gets `alias` unless it has an
    /// alias already.
    pub fn add_name(&mut self, name: String, alias: String)
        requires
            old(self).wf(),
        ensures
            final(self).wf(),
            final(self).names() == spec_with_name(old(self).names(), name@),
            final(self).aliases() == spec_aliases_with_name(
                old(self).names(),
                old(self).aliases(),
                name@,
                alias@,
            ),
            final(self).contains(name@),
            !old(self).contains(name@) ==> final(self).alias_of(name@) == alias@,
            final(self).spec_keeps(*old(self)),
            final(self).spec_grown_from(*old(self)),
            forall|other: Seq<char>|
                final(self).contains(other) ==> old(self).contains(other) || other == name@,
            old(self).spec_aliases_filled() && alias@.len() > 0
                ==> final(self).spec_aliases_filled(),
    {
        if self.get(name.as_str()).is_none() {
            proof {
                self.lemma_wf();
                lemma_pushed(self.names.deep_view(), self.aliases.deep_view(), name@, alias@);
                if self.spec_aliases_filled() && alias@.len() > 0 {
                    lemma_pushed_filled(
                        self.names.deep_view(),
                        self.aliases.deep_view(),
                        name@,
                        alias@,
                    );
                }
            }
            self.append(name, alias);
        }
    }
}

/// What holds of names and aliases once a new name is put behind them:
/// the new name stands last with its alias, and every other stands where it
/// stood, with the alias that it had.
pub proof fn lemma_pushed(
    names: Seq<Seq<char>>,
    aliases: Seq<Seq<char>>,
    name: Seq<char>,
    alias: Seq<char>,
)
    requires
        names.no_duplicates(),
        names.len() == aliases.len(),
        !names.contains(name),
    ensures
        names.push(name).no_duplicates(),
        names.push(name).contains(name),
        names.push(name).index_of(name) == names.len(),
        aliases.push(alias)[names.push(name).index_of(name)] == alias,
        forall|other: Seq<char>|
            names.contains(other) ==> names.push(name).contains(other) && names.push(
                name,
            ).index_of(other) == names.index_of(other) && aliases.push(alias)[names.push(
                name,
            ).index_of(other)] == aliases[names.index_of(other)],
        forall|other: Seq<char>|
            names.push(name).contains(other) ==> other == name || names.contains(other),
{
    let grown = names.push(name);
    crate::text::lemma_push_fresh(names, name);
    assert(grown[names.len() as int] == name);
    assert(grown.index_of(name) == names.len()) by {
        assert(grown[grown.index_of(name)] == name);
    }
    assert forall|other: Seq<char>| names.contains(other) implies grown.contains(other)
        && grown.index_of(other) == names.index_of(other) && aliases.push(alias)[grown.index_of(
        other,
    )] == aliases[names.index_of(other)] by {
        let j = names.index_of(other);
        assert(names[j] == other);
        assert(grown[j] == other);
        assert(grown[grown.index_of(other)] == other);
    }
    assert forall|other: Seq<char>| grown.contains(other) implies other == name
        || names.contains(other) by {
        let j = grown.index_of(other);
        assert(grown[j] == other);
        if j < names.len() {
            assert(names[j] == other);
        }
    }
}

/// Tells whether the alias of every name holds at least one character.
pub open spec fn spec_filled(names: Seq<Seq<char>>, aliases: Seq<Seq<char>>) -> bool {
    forall|name: Seq<char>| names.contains(name) ==> aliases[names.index_of(name)].len() > 0
}

/// Where no alias was empty, none is once a new name is put behind with an
/// alias that is not empty.
pub proof fn lemma_pushed_filled(
    names: Seq<Seq<char>>,
    aliases: Seq<Seq<char>>,
    name: Seq<char>,
    alias: Seq<char>,
)
    requires
        names.no_duplicates(),
        names.len() == aliases.len(),
        !names.contains(name),
        alias.len() > 0,
        spec_filled(names, aliases),
    ensures
        spec_filled(names.push(name), aliases.push(alias)),
{
    lemma_pushed(names, aliases, name, alias);
    assert forall|other: Seq<char>| names.push(name).contains(other) implies aliases.push(
        alias,
    )[names.push(name).index_of(other)].len() > 0 by {
        if other != name {
            assert(names.contains(other));
        }
    }
}

/// The names after `name` has been seen: it goes to the end if it is new.
pub open spec fn spec_with_name(names: Seq<Seq<char>>, name: Seq<char>) -> Seq<Seq<char>> {
    if names.contains(name) {
        names
    } else {
        names.push(name)
    }
}

/// The aliases after `name` has been seen: where it is new, `fresh` goes to
/// the end for it.
pub open spec fn spec_aliases_with_name(
    names: Seq<Seq<char>>,
    aliases: Seq<Seq<char>>,
    name: Seq<char>,
    fresh: Seq<char>,
) -> Seq<Seq<char>> {
    if names.contains(name) {
        aliases
    } else {
        aliases.push(fresh)
    }
}

/// The names after an author has been seen: the username goes to the end
/// if it is new, then the display name if it is new.
pub open spec fn spec_with_author(names: Seq<Seq<char>>, username: Seq<char>, name: Seq<char>) -> Seq<
    Seq<char>,
> {
    spec_with_name(spec_with_name(names, username), name)
}

/// The aliases after an author has been seen. Where neither the username
/// nor the display name has an alias, both get `fresh`; where one of them
/// has one, the other gets the same; where both have one, nothing changes.
pub open spec fn spec_aliases_with_author(
    names: Seq<Seq<char>>,
    aliases: Seq<Seq<char>>,
    username: Seq<char>,
    name: Seq<char>,
    fresh: Seq<char>,
) -> Seq<Seq<char>> {
    if names.contains(username) {
        if names.contains(name) {
            aliases
        } else {
            aliases.push(aliases[names.index_of(username)])
        }
    } else if names.contains(name) {
        aliases.push(aliases[names.index_of(name)])
    } else if username == name {
        aliases.push(fresh)
    } else {
        aliases.push(fresh).push(fresh)
    }
}

/// For each name, the place of the name that its alias was drawn for,
/// after an author has been seen: a name that takes over an alias points
/// where the name points that had it; a name that gets a fresh alias points
/// to the first name that got it.
pub open spec fn spec_draws_with_author(
    names: Seq<Seq<char>>,
    draws: Seq<int>,
    username: Seq<char>,
    name: Seq<char>,
) -> Seq<int> {
    if names.contains(username) {
        if names.contains(name) {
            draws
        } else {
            draws.push(draws[names.index_of(username)])
        }
    } else if names.contains(name) {
        draws.push(draws[names.index_of(name)])
    } else if username == name {
        draws.push(names.len() as int)
    } else {
        draws.push(names.len() as int).push(names.len() as int)
    }
}

/// For each name that the authors of the first `n` posts bring, the place
/// of the name that its alias was drawn for.
pub open spec fn spec_author_draws(posts: Seq<Post>, n: int) -> Seq<int>
    decreases n,
{
    if n <= 0 {
        Seq::empty()
    } else {
        spec_draws_with_author(
            spec_author_names(posts, n - 1),
            spec_author_draws(posts, n - 1),
            posts[n - 1].username@,
            posts[n - 1].name@,
        )
    }
}

/// For each of `count` names of a batch, the place of the name that its
/// alias was drawn for: as the authors give it, and its own place for a
/// name that only a body holds.
pub open spec fn spec_collected_draws(posts: Seq<Post>, count: nat) -> Seq<int> {
    Seq::new(
        count,
        |i: int|
            if i < spec_author_draws(posts, posts.len() as int).len() {
                spec_author_draws(posts, posts.len() as int)[i]
            } else {
                i
            },
    )
}

/// Tells whether every alias is the one at the place that `draws` names for
/// it, which is its own place or one before it.
pub open spec fn spec_drawn(aliases: Seq<Seq<char>>, draws: Seq<int>) -> bool {
    &&& draws.len() == aliases.len()
    &&& forall|i: int|
        0 <= i < draws.len() ==> 0 <= #[trigger] draws[i] <= i && aliases[i] == aliases[draws[i]]
}

/// Tells whether post `i` gets one alias for its username and its display
/// name: that is so unless both had an alias before its turn, drawn for
/// different names.
#[verifier::opaque]
pub open spec fn spec_post_shares(posts: Seq<Post>, i: int) -> bool {
    let names = spec_author_names(posts, i);
    let draws = spec_author_draws(posts, i);
    let username = posts[i].username@;
    let name = posts[i].name@;
    !(names.contains(username) && names.contains(name)) || draws[names.index_of(username)]
        == draws[names.index_of(name)]
}

/// Taking in an author keeps every alias at the place that is named for
/// it.
#[verifier::rlimit(40)]
pub proof fn lemma_drawn_with_author(
    names: Seq<Seq<char>>,
    aliases: Seq<Seq<char>>,
    draws: Seq<int>,
    username: Seq<char>,
    name: Seq<char>,
    fresh: Seq<char>,
)
    requires
        names.no_duplicates(),
        names.len() == aliases.len(),
        spec_drawn(aliases, draws),
    ensures
        spec_drawn(
            spec_aliases_with_author(names, aliases, username, name, fresh),
            spec_draws_with_author(names, draws, username, name),
        ),
        spec_draws_with_author(names, draws, username, name).len() == spec_with_author(
            names,
            username,
            name,
        ).len(),
{
    let after = spec_aliases_with_author(names, aliases, username, name, fresh);
    let places = spec_draws_with_author(names, draws, username, name);
    if names.contains(username) {
        let at = names.index_of(username);
        assert(names[at] == username);
        assert(0 <= draws[at] <= at);
    }
    if names.contains(name) {
        let at = names.index_of(name);
        assert(names[at] == name);
        assert(0 <= draws[at] <= at);
    }
    if !names.contains(username) && names.contains(name) {
        let grown = names.push(username);
        assert(grown.contains(name)) by {
            assert(grown[names.index_of(name)] == name);
        }
    }
    if !names.contains(username) && !names.contains(name) && username != name {
        let grown = names.push(username);
        if grown.contains(name) {
            let i = grown.index_of(name);
            assert(grown[i] == name);
            if i < names.len() {
                assert(names[i] == name);
            }
        }
    }
    if names.contains(username) && !names.contains(name) {
        assert(spec_with_name(names, username) == names);
    }
    if !names.contains(username) && username == name {
        let grown = names.push(username);
        assert(grown[names.len() as int] == name);
    }
    assert forall|i: int| 0 <= i < places.len() implies 0 <= #[trigger] places[i] <= i && after[i]
        == after[places[i]] by {
        if i < draws.len() {
            assert(places[i] == draws[i]);
            assert(after[i] == aliases[i]);
            assert(after[draws[i]] == aliases[draws[i]]);
        }
    }
}

/// The names after the authors of the first `n` posts have been seen: each
/// post brings its username and its display name, as far as they are new.
pub open spec fn spec_author_names(posts: Seq<Post>, n: int) -> Seq<Seq<char>>
    decreases n,
{
    if n <= 0 {
        Seq::empty()
    } else {
        spec_with_author(
            spec_author_names(posts, n - 1),
            posts[n - 1].username@,
            posts[n - 1].name@,
        )
    }
}

/// The names after the first `n` matches of `found` have been seen, on top
/// of `names`.
pub open spec fn spec_with_matches(
    names: Seq<Seq<char>>,
    found: Seq<Seq<Option<Seq<char>>>>,
    n: int,
) -> Seq<Seq<char>>
    decreases n,
{
    if n <= 0 {
        names
    } else {
        spec_with_name(spec_with_matches(names, found, n - 1), group_text(found[n - 1], 1))
    }
}

/// The names after the matches of one pattern in one body have been seen,
/// on top of `names`. `None` where the pattern cannot be used.
pub open spec fn spec_with_pattern(names: Seq<Seq<char>>, kind: NamePattern, body: Seq<char>) -> Option<
    Seq<Seq<char>>,
> {
    match regex_captures(spec_pattern(kind), body) {
        Some(found) => Some(spec_with_matches(names, found, found.len() as int)),
        None => None,
    }
}

/// The names after the three patterns have been searched in one body:
/// mentions, then quotations, then attributions.
pub open spec fn spec_with_body(names: Seq<Seq<char>>, body: Seq<char>) -> Option<Seq<Seq<char>>> {
    match spec_with_pattern(names, NamePattern::Mention, body) {
        None => None,
        Some(first) => match spec_with_pattern(first, NamePattern::Quote, body) {
            None => None,
            Some(second) => spec_with_pattern(second, NamePattern::Forwarded, body),
        },
    }
}

/// The names after the bodies of the first `n` posts have been searched, on
/// top of `names`.
pub open spec fn spec_with_bodies(names: Seq<Seq<char>>, posts: Seq<Post>, n: int) -> Option<
    Seq<Seq<char>>,
>
    decreases n,
{
    if n <= 0 {
        Some(names)
    } else {
        match spec_with_bodies(names, posts, n - 1) {
            None => None,
            Some(before) => spec_with_body(before, posts[n - 1].content@),
        }
    }
}

/// The names that a batch of posts brings, in the order in which they are
/// first seen: those of all authors, then those that the bodies name.
pub open spec fn spec_collected_names(posts: Seq<Post>) -> Option<Seq<Seq<char>>> {
    spec_with_bodies(spec_author_names(posts, posts.len() as int), posts, posts.len() as int)
}

/// Takes in the names that a pattern has found: `found` holds the groups of
/// each match, the name in group 1. Every name that is new gets a fresh
/// alias; every other keeps the one that it has.
pub fn collect_matches(map: &mut NameMap, found: &Vec<Vec<Option<String>>>)
    requires
        old(map).wf(),
    ensures
        final(map).wf(),
        final(map).names() == spec_with_matches(
            old(map).names(),
            found.deep_view(),
            found.len() as int,
        ),
        final(map).spec_keeps(*old(map)),
        final(map).spec_grown_from(*old(map)),
        old(map).spec_aliases_filled() ==> final(map).spec_aliases_filled(),
{
    let ghost view = found.deep_view();
    let mut k: usize = 0;
    while k < found.len()
        invariant
            k <= found.len(),
            view == found.deep_view(),
            map.wf(),
            map.names() == spec_with_matches(old(map).names(), view, k as int),
            map.spec_keeps(*old(map)),
            map.spec_grown_from(*old(map)),
            old(map).spec_aliases_filled() ==> map.spec_aliases_filled(),
        decreases found.len() - k,
    {
        assert(view[k as int] == found@[k as int].deep_view());
        let mut name = String::new();
        crate::archiver::utils::push_group(&mut name, &found[k], 1);
        assert(name@ =~= group_text(view[k as int], 1));
        if map.get(name.as_str()).is_none() {
            map.add_name(name, fake_name());
        }
        k += 1;
    }
}

/// Searches a body for one pattern and takes in the names that it finds.
/// Fails with `Error::Pattern`, and changes nothing, where the pattern
/// cannot be used.
pub fn collect_pattern(map: &mut NameMap, kind: NamePattern, body: &str) -> (r: Result<(), Error>)
    requires
        old(map).wf(),
    ensures
        final(map).wf(),
        final(map).spec_keeps(*old(map)),
        final(map).spec_grown_from(*old(map)),
        old(map).spec_aliases_filled() ==> final(map).spec_aliases_filled(),
        match r {
            Ok(_) => spec_with_pattern(old(map).names(), kind, body@) == Some(final(map).names()),
            Err(e) => e == Error::Pattern && spec_with_pattern(old(map).names(), kind, body@)
                is None,
        },
{
    match captures(pattern(kind), body) {
        Some(found) => {
            collect_matches(map, &found);
            Ok(())
        },
        None => Err(Error::Pattern),
    }
}

/// Tells whether every post of the first `n` has an alias for its username
/// and for its display name, and one and the same where `spec_post_shares`
/// says so.
pub open spec fn spec_authors_named(map: NameMap, posts: Seq<Post>, n: int) -> bool {
    forall|j: int|
        0 <= j < n ==> map.contains((#[trigger] posts[j]).username@) && map.contains(
            posts[j].name@,
        ) && (spec_post_shares(posts, j) ==> map.alias_of(posts[j].username@) == map.alias_of(
            posts[j].name@,
        ))
}

/// One more author keeps what holds of the authors before, and gets one
/// alias for username and display name as `spec_post_shares` says.
#[verifier::rlimit(40)]
pub proof fn lemma_author_step(before: NameMap, after: NameMap, posts: Seq<Post>, i: int)
    requires
        0 <= i < posts.len(),
        before.wf(),
        after.wf(),
        before.names() == spec_author_names(posts, i),
        spec_drawn(before.aliases(), spec_author_draws(posts, i)),
        spec_authors_named(before, posts, i),
        after.contains(posts[i].username@),
        after.contains(posts[i].name@),
        !(before.contains(posts[i].username@) && before.contains(posts[i].name@))
            ==> after.alias_of(posts[i].username@) == after.alias_of(posts[i].name@),
        before.contains(posts[i].username@) && before.contains(posts[i].name@) ==> after.names()
            == before.names() && after.aliases() == before.aliases(),
        after.spec_keeps(before),
    ensures
        spec_authors_named(after, posts, i + 1),
{
    let username = posts[i].username@;
    let name = posts[i].name@;
    before.lemma_wf();
    assert forall|j: int| 0 <= j < i + 1 implies after.contains((#[trigger] posts[j]).username@)
        && after.contains(posts[j].name@) && (spec_post_shares(posts, j) ==> after.alias_of(
        posts[j].username@,
    ) == after.alias_of(posts[j].name@)) by {
        if j < i {
            let u = posts[j].username@;
            let n = posts[j].name@;
            assert(before.contains(u) && before.contains(n));
            assert(after.contains(u) && after.alias_of(u) == before.alias_of(u));
            assert(after.contains(n) && after.alias_of(n) == before.alias_of(n));
        } else if spec_post_shares(posts, i) && before.contains(username) && before.contains(
            name,
        ) {
            lemma_known_pair_shares(before.names(), before.aliases(), posts, i);
        }
    }
}

/// A post whose username and display name both had an alias before its
/// turn, drawn for one and the same name, has one alias for both.
pub proof fn lemma_known_pair_shares(
    names: Seq<Seq<char>>,
    aliases: Seq<Seq<char>>,
    posts: Seq<Post>,
    i: int,
)
    requires
        0 <= i < posts.len(),
        names == spec_author_names(posts, i),
        spec_drawn(aliases, spec_author_draws(posts, i)),
        names.len() == aliases.len(),
        names.contains(posts[i].username@),
        names.contains(posts[i].name@),
        spec_post_shares(posts, i),
    ensures
        aliases[names.index_of(posts[i].username@)] == aliases[names.index_of(posts[i].name@)],
{
    reveal(spec_post_shares);
    let draws = spec_author_draws(posts, i);
    let at_username = names.index_of(posts[i].username@);
    let at_name = names.index_of(posts[i].name@);
    assert(names[at_username] == posts[i].username@);
    assert(names[at_name] == posts[i].name@);
    assert(0 <= draws[at_username] <= at_username);
    assert(0 <= draws[at_name] <= at_name);
    assert(aliases[at_username] == aliases[draws[at_username]]);
    assert(aliases[at_name] == aliases[draws[at_name]]);
}

/// Gives the authors of a batch their aliases, post by post: a username
/// and a display name that are both new get one fresh alias; where one of
/// them has an alias, the other gets the same; where both have one, they
/// keep what they have.
#[verifier::rlimit(40)]
pub fn collect_authors(posts: &Vec<Post>) -> (map: NameMap)
    ensures
        map.wf(),
        map.names() == spec_author_names(posts@, posts.len() as int),
        map.spec_aliases_filled(),
        spec_drawn(map.aliases(), spec_author_draws(posts@, posts.len() as int)),
        spec_authors_named(map, posts@, posts.len() as int),
{
    let mut map = NameMap::new();
    let mut i: usize = 0;
    while i < posts.len()
        invariant
            i <= posts.len(),
            map.wf(),
            map.names() == spec_author_names(posts@, i as int),
            map.spec_aliases_filled(),
            spec_drawn(map.aliases(), spec_author_draws(posts@, i as int)),
            spec_authors_named(map, posts@, i as int),
        decreases posts.len() - i,
    {
        let ghost before = map;
        let fresh = if map.get(posts[i].username.as_str()).is_none() && map.get(
            posts[i].name.as_str(),
        ).is_none() {
            fake_name()
        } else {
            String::new()
        };
        map.add_author(posts[i].username.clone(), posts[i].name.clone(), fresh);
        proof {
            before.lemma_wf();
            lemma_drawn_with_author(
                before.names(),
                before.aliases(),
                spec_author_draws(posts@, i as int),
                posts@[i as int].username@,
                posts@[i as int].name@,
                fresh@,
            );
            lemma_author_step(before, map, posts@, i as int);
        }
        i += 1;
    }
    map
}

/// Searches the bodies of a batch for mentions, quotations and
/// attributions, post by post, and gives every name found there that is new
/// a fresh alias; every other name keeps its place and its alias. Fails
/// with `Error::Pattern` where a pattern cannot be used.
pub fn collect_bodies(map: &mut NameMap, posts: &Vec<Post>) -> (r: Result<(), Error>)
    requires
        old(map).wf(),
    ensures
        final(map).wf(),
        final(map).spec_keeps(*old(map)),
        final(map).spec_grown_from(*old(map)),
        old(map).spec_aliases_filled() ==> final(map).spec_aliases_filled(),
        match r {
            Ok(_) => spec_with_bodies(old(map).names(), posts@, posts.len() as int) == Some(
                final(map).names(),
            ),
            Err(e) => e == Error::Pattern && spec_with_bodies(
                old(map).names(),
                posts@,
                posts.len() as int,
            ) is None,
        },
{
    let ghost authors = map.names();
    let mut i: usize = 0;
    while i < posts.len()
        invariant
            i <= posts.len(),
            map.wf(),
            authors == old(map).names(),
            spec_with_bodies(authors, posts@, i as int) == Some(map.names()),
            old(map).spec_aliases_filled() ==> map.spec_aliases_filled(),
            map.spec_keeps(*old(map)),
            map.spec_grown_from(*old(map)),
        decreases posts.len() - i,
    {
        let body = posts[i].content.as_str();
        match collect_pattern(map, NamePattern::Mention, body) {
            Ok(_) => {},
            Err(_) => {
                proof {
                    lemma_bodies_fail(authors, posts@, i + 1, posts.len() as int);
                }
                return Err(Error::Pattern);
            },
        }
        match collect_pattern(map, NamePattern::Quote, body) {
            Ok(_) => {},
            Err(_) => {
                proof {
                    lemma_bodies_fail(authors, posts@, i + 1, posts.len() as int);
                }
                return Err(Error::Pattern);
            },
        }
        match collect_pattern(map, NamePattern::Forwarded, body) {
            Ok(_) => {},
            Err(_) => {
                proof {
                    lemma_bodies_fail(authors, posts@, i + 1, posts.len() as int);
                }
                return Err(Error::Pattern);
            },
        }
        i += 1;
    }
    Ok(())
}

/// What holds of the authors' aliases holds on once names from the bodies
/// are put behind them.
pub proof fn lemma_collected_drawn(first: NameMap, map: NameMap, posts: Seq<Post>)
    requires
        first.wf(),
        map.wf(),
        spec_drawn(first.aliases(), spec_author_draws(posts, posts.len() as int)),
        spec_authors_named(first, posts, posts.len() as int),
        map.spec_keeps(first),
        map.spec_grown_from(first),
    ensures
        spec_drawn(map.aliases(), spec_collected_draws(posts, map.names().len())),
        spec_authors_named(map, posts, posts.len() as int),
{
    first.lemma_wf();
    map.lemma_wf();
    let before = spec_author_draws(posts, posts.len() as int);
    let places = spec_collected_draws(posts, map.names().len());
    assert forall|k: int| 0 <= k < places.len() implies 0 <= #[trigger] places[k] <= k
        && map.aliases()[k] == map.aliases()[places[k]] by {
        if k < before.len() {
            assert(places[k] == before[k]);
            assert(0 <= before[k] <= k);
            assert(map.aliases()[k] == first.aliases()[k]);
            assert(map.aliases()[before[k]] == first.aliases()[before[k]]);
        }
    }
    assert forall|j: int| 0 <= j < posts.len() implies map.contains(
        (#[trigger] posts[j]).username@,
    ) && map.contains(posts[j].name@) && (spec_post_shares(posts, j) ==> map.alias_of(
        posts[j].username@,
    ) == map.alias_of(posts[j].name@)) by {
        assert(first.contains(posts[j].username@));
        assert(first.contains(posts[j].name@));
    }
}

/// Gives every name of a batch of posts an alias: the authors first, as
/// `collect_authors` does, then the names that the bodies hold, as
/// `collect_bodies` does. In the end every username and every display name
/// has an alias, no alias is empty, and every name has the alias of the
/// name that `spec_collected_draws` names for it. Fails with
/// `Error::Pattern` where a pattern cannot be used.
pub fn collect_anonymous_names(posts: &Vec<Post>) -> (r: Result<NameMap, Error>)
    ensures
        match r {
            Ok(map) => {
                &&& map.wf()
                &&& spec_collected_names(posts@) == Some(map.names())
                &&& map.spec_aliases_filled()
                &&& spec_drawn(map.aliases(), spec_collected_draws(posts@, map.names().len()))
                &&& spec_authors_named(map, posts@, posts.len() as int)
            },
            Err(e) => e == Error::Pattern && spec_collected_names(posts@) is None,
        },
{
    let mut map = collect_authors(posts);
    let ghost first = map;
    match collect_bodies(&mut map, posts) {
        Ok(_) => {
            proof {
                lemma_collected_drawn(first, map, posts@);
            }
            Ok(map)
        },
        Err(_) => Err(Error::Pattern),
    }
}

/// Once the search has failed it stays failed.
pub proof fn lemma_bodies_fail(names: Seq<Seq<char>>, posts: Seq<Post>, n: int, m: int)
    requires
        0 <= n <= m,
        spec_with_bodies(names, posts, n) is None,
    ensures
        spec_with_bodies(names, posts, m) is None,
    decreases m - n,
{
    if n < m {
        lemma_bodies_fail(names, posts, n, m - 1);
    }
}

/// What the first `n` matches of a pattern are replaced by. `None` where one
/// of them names somebody without an alias.
pub open spec fn spec_replacements(
    map: NameMap,
    kind: NamePattern,
    found: Seq<Seq<Option<Seq<char>>>>,
    n: int,
) -> Option<Seq<Seq<char>>>
    decreases n,
{
    if n <= 0 {
        Some(Seq::empty())
    } else {
        match spec_replacements(map, kind, found, n - 1) {
            None => None,
            Some(before) => if map.contains(group_text(found[n - 1], 1)) {
                Some(before.push(spec_masked(kind, map.alias_of(group_text(found[n - 1], 1)))))
            } else {
                None
            },
        }
    }
}

/// A body with the matches of one pattern masked: each match is replaced by
/// the pattern's form with the alias of the name that it holds.
pub open spec fn spec_mask_pattern(map: NameMap, kind: NamePattern, text: Seq<char>) -> Result<
    Seq<char>,
    Error,
> {
    match regex_captures(spec_pattern(kind), text) {
        None => Err(Error::Pattern),
        Some(found) => match spec_replacements(map, kind, found, found.len() as int) {
            None => Err(Error::UnknownName),
            Some(with) => match regex_replace_each(spec_pattern(kind), text, with) {
                Some(masked) => Ok(masked),
                None => Err(Error::Pattern),
            },
        },
    }
}

/// A body with the three patterns masked: mentions, then quotations, then
/// attributions.
pub open spec fn spec_mask_patterns(map: NameMap, text: Seq<char>) -> Result<Seq<char>, Error> {
    match spec_mask_pattern(map, NamePattern::Mention, text) {
        Err(e) => Err(e),
        Ok(first) => match spec_mask_pattern(map, NamePattern::Quote, first) {
            Err(e) => Err(e),
            Ok(second) => spec_mask_pattern(map, NamePattern::Forwarded, second),
        },
    }
}

/// A body in which the first `n` names of the map are replaced by their
/// aliases wherever they stand, one name after the other; names that are
/// too short are passed over.
pub open spec fn spec_mask_names(map: NameMap, text: Seq<char>, n: int) -> Seq<char>
    decreases n,
{
    if n <= 0 {
        text
    } else if is_masked_everywhere(map.names()[n - 1]) {
        replaced(spec_mask_names(map, text, n - 1), map.names()[n - 1], map.aliases()[n - 1])
    } else {
        spec_mask_names(map, text, n - 1)
    }
}

/// A body with all names masked: the three patterns first, then every name
/// that is long enough, wherever it stands.
pub open spec fn spec_mask_username_in_cooked(map: NameMap, text: Seq<char>) -> Result<
    Seq<char>,
    Error,
> {
    match spec_mask_patterns(map, text) {
        Err(e) => Err(e),
        Ok(masked) => Ok(spec_mask_names(map, masked, map.names().len() as int)),
    }
}

/// What the matches of a pattern are replaced by: `found` holds the groups
/// of each match, the name in group 1, and each match gets the pattern's
/// masked form with the alias of its name. Fails with `Error::UnknownName`
/// where one of the names has no alias.
pub fn mask_replacements(map: &NameMap, kind: NamePattern, found: &Vec<Vec<Option<String>>>) -> (r:
    Result<Vec<String>, Error>)
    requires
        map.wf(),
    ensures
        match r {
            Ok(with) => spec_replacements(*map, kind, found.deep_view(), found.len() as int)
                == Some(with.deep_view()),
            Err(e) => e == Error::UnknownName && spec_replacements(
                *map,
                kind,
                found.deep_view(),
                found.len() as int,
            ) is None,
        },
{
    let ghost view = found.deep_view();
    let mut with: Vec<String> = Vec::new();
    let mut k: usize = 0;
    assert(with.deep_view() =~= Seq::<Seq<char>>::empty());
    while k < found.len()
        invariant
            k <= found.len(),
            view == found.deep_view(),
            map.wf(),
            spec_replacements(*map, kind, view, k as int) == Some(with.deep_view()),
        decreases found.len() - k,
    {
        assert(view[k as int] == found@[k as int].deep_view());
        let mut name = String::new();
        crate::archiver::utils::push_group(&mut name, &found[k], 1);
        assert(name@ =~= group_text(view[k as int], 1));
        match map.get(name.as_str()) {
            Some(alias) => {
                push_string(&mut with, masked(kind, alias));
            },
            None => {
                proof {
                    assert(!map.contains(group_text(view[k as int], 1)));
                    assert(spec_replacements(*map, kind, view, k + 1) is None);
                    lemma_replacements_fail(*map, kind, view, k + 1, view.len() as int);
                }
                return Err(Error::UnknownName);
            },
        }
        k += 1;
    }
    Ok(with)
}

/// Masks the matches of one pattern in a body. Fails with
/// `Error::Pattern` where the pattern cannot be used, and with
/// `Error::UnknownName` where a match names somebody without an alias.
pub fn mask_pattern(map: &NameMap, kind: NamePattern, text: &str) -> (r: Result<String, Error>)
    requires
        map.wf(),
    ensures
        match r {
            Ok(masked) => spec_mask_pattern(*map, kind, text@) == Ok::<Seq<char>, Error>(masked@),
            Err(e) => spec_mask_pattern(*map, kind, text@) == Err::<Seq<char>, Error>(e),
        },
{
    let found = match captures(pattern(kind), text) {
        Some(found) => found,
        None => {
            return Err(Error::Pattern);
        },
    };
    let with = match mask_replacements(map, kind, &found) {
        Ok(with) => with,
        Err(e) => {
            return Err(e);
        },
    };
    match replace_each(pattern(kind), text, &with) {
        Some(masked) => Ok(masked),
        None => Err(Error::Pattern),
    }
}

/// Once a name without alias was met, the replacements stay undefined.
pub proof fn lemma_replacements_fail(
    map: NameMap,
    kind: NamePattern,
    found: Seq<Seq<Option<Seq<char>>>>,
    n: int,
    m: int,
)
    requires
        0 <= n <= m,
        spec_replacements(map, kind, found, n) is None,
    ensures
        spec_replacements(map, kind, found, m) is None,
    decreases m - n,
{
    if n < m {
        lemma_replacements_fail(map, kind, found, n, m - 1);
    }
}

/// Masks the names in a body. Mentions, the headers of quotations and the
/// attributions of forwarded posts are rewritten to their masked forms with
/// the alias of whom they name; then every name of the map that is long
/// enough is replaced by its alias wherever it stands, in the order of the
/// map. Fails with `Error::UnknownName` where a pattern names somebody
/// without an alias, and with `Error::Pattern` where a pattern cannot be
/// used.
pub fn mask_username_in_cooked(map: &NameMap, s: String) -> (r: Result<String, Error>)
    requires
        map.wf(),
    ensures
        match r {
            Ok(masked) => spec_mask_username_in_cooked(*map, s@) == Ok::<Seq<char>, Error>(masked@),
            Err(e) => spec_mask_username_in_cooked(*map, s@) == Err::<Seq<char>, Error>(e),
        },
{
    let first = match mask_pattern(map, NamePattern::Mention, s.as_str()) {
        Ok(first) => first,
        Err(e) => {
            return Err(e);
        },
    };
    let second = match mask_pattern(map, NamePattern::Quote, first.as_str()) {
        Ok(second) => second,
        Err(e) => {
            return Err(e);
        },
    };
    let third = match mask_pattern(map, NamePattern::Forwarded, second.as_str()) {
        Ok(third) => third,
        Err(e) => {
            return Err(e);
        },
    };
    let mut text = to_chars(third.as_str());
    let ghost start = text@;
    let mut i: usize = 0;
    proof {
        map.lemma_wf();
    }
    while i < map.len()
        invariant
            i <= map.names().len(),
            map.wf(),
            text@ == spec_mask_names(*map, start, i as int),
        decreases map.names().len() - i,
    {
        let (name, alias) = map.entry(i);
        let name_chars = to_chars(name);
        if masked_everywhere(&name_chars) {
            let alias_chars = to_chars(alias);
            text = replace_chars(&text, &name_chars, &alias_chars);
        }
        i += 1;
    }
    Ok(string_of(&text))
}

/// The thresholds of the replacement that goes over the whole body: an
/// ASCII name that is shorter than five characters once trimmed is never
/// replaced there, so a body is left as it is by such a name; any other name
/// of at least two characters once trimmed is replaced.
pub proof fn lemma_masked_everywhere_thresholds(map: NameMap, text: Seq<char>, n: int)
    requires
        0 < n <= map.names().len(),
    ensures
        all_ascii(map.names()[n - 1]) && trimmed(map.names()[n - 1]).len() < 5
            ==> spec_mask_names(map, text, n) == spec_mask_names(map, text, n - 1),
        !all_ascii(map.names()[n - 1]) && trimmed(map.names()[n - 1]).len() >= 2
            ==> spec_mask_names(map, text, n) == replaced(
            spec_mask_names(map, text, n - 1),
            map.names()[n - 1],
            map.aliases()[n - 1],
        ),
{
}

/// A post with its author masked: no display name, the alias as username,
/// no avatar; `content` is the masked body.
pub open spec fn spec_anonymized(map: NameMap, post: Post, anonymous: Post) -> bool {
    &&& anonymous.name@ == Seq::<char>::empty()
    &&& anonymous.username@ == map.alias_of(post.username@)
    &&& anonymous.avatar is None
    &&& spec_mask_username_in_cooked(map, post.content@) == Ok::<Seq<char>, Error>(
        anonymous.content@,
    )
    &&& anonymous.number == post.number
    &&& anonymous.created_at == post.created_at
    &&& anonymous.created_at_display == post.created_at_display
    &&& anonymous.likes == post.likes
    &&& anonymous.reply_to == post.reply_to
    &&& anonymous.emojis@ == post.emojis@
}

/// The error that masking a post ends with: `Error::UnknownName` where its
/// author has no alias, else that of masking its body; none where both go
/// well.
pub open spec fn spec_anonymize_error(map: NameMap, post: Post) -> Option<Error> {
    if !map.contains(post.username@) {
        Some(Error::UnknownName)
    } else {
        match spec_mask_username_in_cooked(map, post.content@) {
            Ok(_) => None,
            Err(e) => Some(e),
        }
    }
}

/// Masks the author of a post and the names in its body. Fails as
/// `mask_username_in_cooked` does, and with `Error::UnknownName` where the
/// author has no alias.
pub fn anonymize_post(map: &NameMap, post: Post) -> (r: Result<Post, Error>)
    requires
        map.wf(),
    ensures
        match r {
            Ok(anonymous) => spec_anonymize_error(*map, post) is None && map.contains(
                post.username@,
            ) && spec_anonymized(*map, post, anonymous),
            Err(e) => spec_anonymize_error(*map, post) == Some(e),
        },
{
    let username = match map.get(post.username.as_str()) {
        Some(alias) => String::from_str(alias),
        None => {
            return Err(Error::UnknownName);
        },
    };
    let content = match mask_username_in_cooked(map, post.content) {
        Ok(content) => content,
        Err(e) => {
            return Err(e);
        },
    };
    Ok(
        Post {
            name: String::new(),
            number: post.number,
            username,
            created_at: post.created_at,
            created_at_display: post.created_at_display,
            content,
            likes: post.likes,
            reply_to: post.reply_to,
            emojis: post.emojis,
            avatar: None,
        },
    )
}

/// Masking fails in two ways only.
pub proof fn lemma_mask_errors(map: NameMap, text: Seq<char>)
    ensures
        match spec_mask_username_in_cooked(map, text) {
            Ok(_) => true,
            Err(e) => e == Error::Pattern || e == Error::UnknownName,
        },
{
}

/// A name that was seen stays, whatever is seen after it.
pub proof fn lemma_with_matches_keeps(
    names: Seq<Seq<char>>,
    found: Seq<Seq<Option<Seq<char>>>>,
    n: int,
    name: Seq<char>,
)
    requires
        names.contains(name),
    ensures
        spec_with_matches(names, found, n).contains(name),
    decreases n,
{
    if n > 0 {
        lemma_with_matches_keeps(names, found, n - 1, name);
        let before = spec_with_matches(names, found, n - 1);
        let i = before.index_of(name);
        assert(before[i] == name);
        assert(spec_with_name(before, group_text(found[n - 1], 1))[i] == name);
    }
}

/// A name that was seen before the bodies are searched is there after it.
pub proof fn lemma_with_bodies_keeps(names: Seq<Seq<char>>, posts: Seq<Post>, n: int, name: Seq<char>)
    requires
        names.contains(name),
        spec_with_bodies(names, posts, n) is Some,
    ensures
        spec_with_bodies(names, posts, n)->0.contains(name),
    decreases n,
{
    if n > 0 {
        lemma_with_bodies_keeps(names, posts, n - 1, name);
        let before = spec_with_bodies(names, posts, n - 1)->0;
        let body = posts[n - 1].content@;
        let first_found = regex_captures(spec_pattern(NamePattern::Mention), body)->0;
        lemma_with_matches_keeps(before, first_found, first_found.len() as int, name);
        let first = spec_with_pattern(before, NamePattern::Mention, body)->0;
        let second_found = regex_captures(spec_pattern(NamePattern::Quote), body)->0;
        lemma_with_matches_keeps(first, second_found, second_found.len() as int, name);
        let second = spec_with_pattern(first, NamePattern::Quote, body)->0;
        let third_found = regex_captures(spec_pattern(NamePattern::Forwarded), body)->0;
        lemma_with_matches_keeps(second, third_found, third_found.len() as int, name);
    }
}

/// The username and the display name of each of the first `n` authors are
/// among their names.
pub proof fn lemma_author_names_hold(posts: Seq<Post>, n: int, i: int)
    requires
        0 <= i < n <= posts.len(),
    ensures
        spec_author_names(posts, n).contains(posts[i].username@),
        spec_author_names(posts, n).contains(posts[i].name@),
    decreases n,
{
    let before = spec_author_names(posts, n - 1);
    let username = posts[n - 1].username@;
    let name = posts[n - 1].name@;
    let middle = spec_with_name(before, username);
    let after = spec_with_name(middle, name);
    assert(after == spec_author_names(posts, n));
    if i < n - 1 {
        lemma_author_names_hold(posts, n - 1, i);
        lemma_with_name_holds(before, username, posts[i].username@);
        lemma_with_name_holds(before, username, posts[i].name@);
        lemma_with_name_holds(middle, name, posts[i].username@);
        lemma_with_name_holds(middle, name, posts[i].name@);
    } else {
        lemma_with_name_holds(before, username, username);
        lemma_with_name_holds(middle, name, username);
        lemma_with_name_holds(middle, name, name);
    }
}

/// After a name has been seen it is there, and so is every name that was
/// there before.
pub proof fn lemma_with_name_holds(names: Seq<Seq<char>>, name: Seq<char>, other: Seq<char>)
    requires
        names.contains(other) || other == name,
    ensures
        spec_with_name(names, name).contains(other),
{
    if !names.contains(name) {
        let grown = names.push(name);
        if other == name {
            assert(grown[names.len() as int] == name);
        } else {
            assert(grown[names.index_of(other)] == other);
        }
    }
}

/// Every author of a batch has an alias for the username and for the
/// display name once the names are collected, so that no post is left with
/// a real name of its author.
pub proof fn lemma_authors_are_collected(posts: Seq<Post>, i: int)
    requires
        0 <= i < posts.len(),
        spec_collected_names(posts) is Some,
    ensures
        spec_collected_names(posts)->0.contains(posts[i].username@),
        spec_collected_names(posts)->0.contains(posts[i].name@),
{
    lemma_author_names_hold(posts, posts.len() as int, i);
    lemma_with_bodies_keeps(
        spec_author_names(posts, posts.len() as int),
        posts,
        posts.len() as int,
        posts[i].username@,
    );
    lemma_with_bodies_keeps(
        spec_author_names(posts, posts.len() as int),
        posts,
        posts.len() as int,
        posts[i].name@,
    );
}

/// Tells whether alias `i` is not empty and shares no character with name
/// `j`.
pub open spec fn spec_alias_apart(map: NameMap, i: int, j: int) -> bool {
    map.aliases()[i].len() > 0 && seq_apart(map.names()[j], map.aliases()[i])
}

/// Tells whether no alias is empty and no alias shares a character with
/// any real name.
pub open spec fn spec_aliases_apart(map: NameMap) -> bool {
    forall|i: int, j: int|
        0 <= i < map.aliases().len() && 0 <= j < map.names().len() ==> #[trigger] spec_alias_apart(
            map,
            i,
            j,
        )
}

/// Once a name that is long enough has had its turn, it stands nowhere in
/// the body, whatever names have their turn after it.
pub proof fn lemma_names_masked(map: NameMap, text: Seq<char>, n: int, k: int)
    requires
        map.wf(),
        spec_aliases_apart(map),
        0 <= k < n <= map.names().len(),
        is_masked_everywhere(map.names()[k]),
    ensures
        !contains_seq(spec_mask_names(map, text, n), map.names()[k]),
    decreases n,
{
    map.lemma_wf();
    let key = map.names()[k];
    lemma_trim_bounds(key);
    assert(key.len() >= 2);
    let before = spec_mask_names(map, text, n - 1);
    let pat = map.names()[n - 1];
    let with = map.aliases()[n - 1];
    assert(spec_alias_apart(map, n - 1, k));
    if n - 1 > k {
        lemma_names_masked(map, text, n - 1, k);
    }
    if is_masked_everywhere(pat) {
        lemma_replaced_leaves_none(before, pat, with, key);
    }
}

/// Where no alias is empty or shares a character with a real name, no
/// real name that is long enough is left in a masked body: not a username,
/// not a display name, not a name that a body holds.
pub proof fn lemma_no_masked_name_left(map: NameMap, text: Seq<char>, k: int)
    requires
        map.wf(),
        spec_aliases_apart(map),
        0 <= k < map.names().len(),
        is_masked_everywhere(map.names()[k]),
        spec_mask_username_in_cooked(map, text) is Ok,
    ensures
        !contains_seq(spec_mask_username_in_cooked(map, text)->Ok_0, map.names()[k]),
{
    let masked = spec_mask_patterns(map, text)->Ok_0;
    lemma_names_masked(map, masked, map.names().len() as int, k);
}

/// Tells whether `small` stands at the start of `big`.
pub open spec fn spec_starts<T>(small: Seq<T>, big: Seq<T>) -> bool {
    small.len() <= big.len() && forall|i: int| 0 <= i < small.len() ==> big[i] == small[i]
}

/// A name of the start of a list without duplicates stands in the whole
/// list at the same place.
pub proof fn lemma_same_place(small: Seq<Seq<char>>, big: Seq<Seq<char>>, name: Seq<char>)
    requires
        spec_starts(small, big),
        big.no_duplicates(),
        small.contains(name),
    ensures
        big.contains(name),
        big.index_of(name) == small.index_of(name),
        small.index_of(name) < small.len(),
{
    let at = small.index_of(name);
    assert(small[at] == name);
    assert(big[at] == name);
    assert(big[big.index_of(name)] == name);
}

/// What taking in an author does to the names and to the places that the
/// aliases were drawn for: what was there stays where it was, both names
/// are there afterwards, and they point to one place unless both were there
/// before.
#[verifier::rlimit(40)]
pub proof fn lemma_roll_step(
    names: Seq<Seq<char>>,
    draws: Seq<int>,
    username: Seq<char>,
    name: Seq<char>,
)
    requires
        names.no_duplicates(),
        draws.len() == names.len(),
    ensures
        spec_with_author(names, username, name).no_duplicates(),
        spec_draws_with_author(names, draws, username, name).len() == spec_with_author(
            names,
            username,
            name,
        ).len(),
        spec_starts(names, spec_with_author(names, username, name)),
        spec_starts(draws, spec_draws_with_author(names, draws, username, name)),
        spec_with_author(names, username, name).contains(username),
        spec_with_author(names, username, name).contains(name),
        !(names.contains(username) && names.contains(name)) ==> spec_draws_with_author(
            names,
            draws,
            username,
            name,
        )[spec_with_author(names, username, name).index_of(username)] == spec_draws_with_author(
            names,
            draws,
            username,
            name,
        )[spec_with_author(names, username, name).index_of(name)],
{
    let after = spec_with_author(names, username, name);
    let places = spec_draws_with_author(names, draws, username, name);
    let none = Seq::<char>::empty();
    let blank = Seq::new(names.len(), |i: int| none);
    if names.contains(username) {
        assert(names[names.index_of(username)] == username);
        if !names.contains(name) {
            lemma_pushed(names, blank, name, none);
            assert(after == names.push(name));
        }
    } else {
        lemma_pushed(names, blank, username, none);
        let grown = names.push(username);
        if names.contains(name) {
            assert(names[names.index_of(name)] == name);
            assert(after == grown);
        } else if username == name {
            assert(after == grown);
        } else {
            assert(!grown.contains(name));
            lemma_pushed(grown, blank.push(none), name, none);
            assert(after == grown.push(name));
        }
    }
}

/// The names that the authors of the first `n` posts bring stand once
/// each, and each has a place that its alias was drawn for.
pub proof fn lemma_roll(posts: Seq<Post>, n: int)
    requires
        0 <= n <= posts.len(),
    ensures
        spec_author_names(posts, n).no_duplicates(),
        spec_author_draws(posts, n).len() == spec_author_names(posts, n).len(),
    decreases n,
{
    if n > 0 {
        lemma_roll(posts, n - 1);
        lemma_roll_step(
            spec_author_names(posts, n - 1),
            spec_author_draws(posts, n - 1),
            posts[n - 1].username@,
            posts[n - 1].name@,
        );
    }
}

/// What the authors of the first `j` posts have brought stays where it is
/// when more authors are taken in.
pub proof fn lemma_roll_grows(posts: Seq<Post>, j: int, k: int)
    requires
        0 <= j <= k <= posts.len(),
    ensures
        spec_starts(spec_author_names(posts, j), spec_author_names(posts, k)),
        spec_starts(spec_author_draws(posts, j), spec_author_draws(posts, k)),
    decreases k - j,
{
    if j < k {
        lemma_roll_grows(posts, j, k - 1);
        lemma_roll(posts, k - 1);
        lemma_roll_step(
            spec_author_names(posts, k - 1),
            spec_author_draws(posts, k - 1),
            posts[k - 1].username@,
            posts[k - 1].name@,
        );
    }
}

/// After the turn of a post that gets one alias for both its names, both
/// point to one place.
pub proof fn lemma_shares_after(posts: Seq<Post>, j: int)
    requires
        0 <= j < posts.len(),
        spec_post_shares(posts, j),
    ensures
        spec_author_names(posts, j + 1).contains(posts[j].username@),
        spec_author_names(posts, j + 1).contains(posts[j].name@),
        spec_author_draws(posts, j + 1)[spec_author_names(posts, j + 1).index_of(
            posts[j].username@,
        )] == spec_author_draws(posts, j + 1)[spec_author_names(posts, j + 1).index_of(
            posts[j].name@,
        )],
{
    reveal(spec_post_shares);
    let names = spec_author_names(posts, j);
    let draws = spec_author_draws(posts, j);
    let username = posts[j].username@;
    let name = posts[j].name@;
    lemma_roll(posts, j);
    lemma_roll_step(names, draws, username, name);
    lemma_roll(posts, j + 1);
    if names.contains(username) && names.contains(name) {
        let after = spec_author_names(posts, j + 1);
        lemma_same_place(names, after, username);
        lemma_same_place(names, after, name);
    }
}

/// A post whose author was seen before, with the same display name and
/// with one alias for both names, gets one alias for both names too.
pub proof fn lemma_repeated_author_shares(posts: Seq<Post>, j: int, i: int)
    requires
        0 <= j < i < posts.len(),
        posts[j].username@ == posts[i].username@,
        posts[j].name@ == posts[i].name@,
        spec_post_shares(posts, j),
    ensures
        spec_post_shares(posts, i),
{
    lemma_shares_after(posts, j);
    lemma_roll_grows(posts, j + 1, i);
    lemma_roll(posts, i);
    lemma_roll(posts, j + 1);
    let small = spec_author_names(posts, j + 1);
    let big = spec_author_names(posts, i);
    lemma_same_place(small, big, posts[i].username@);
    lemma_same_place(small, big, posts[i].name@);
    reveal(spec_post_shares);
}

/// Tells whether one of the first `n` posts has `name` as username or as
/// display name.
pub open spec fn spec_known(posts: Seq<Post>, n: int, name: Seq<char>) -> bool
    decreases n,
{
    0 < n <= posts.len() && (posts[n - 1].username@ == name || posts[n - 1].name@ == name
        || spec_known(posts, n - 1, name))
}

/// A post that has a known name.
pub proof fn lemma_known_witness(posts: Seq<Post>, n: int, name: Seq<char>) -> (j: int)
    requires
        spec_known(posts, n, name),
    ensures
        0 <= j < n,
        posts[j].username@ == name || posts[j].name@ == name,
    decreases n,
{
    if posts[n - 1].username@ == name || posts[n - 1].name@ == name {
        n - 1
    } else {
        lemma_known_witness(posts, n - 1, name)
    }
}

/// Every name that the authors of the first `n` posts bring is the
/// username or the display name of one of them.
pub proof fn lemma_names_known(posts: Seq<Post>, n: int, name: Seq<char>)
    requires
        0 <= n <= posts.len(),
        spec_author_names(posts, n).contains(name),
    ensures
        spec_known(posts, n, name),
    decreases n,
{
    if n > 0 {
        let before = spec_author_names(posts, n - 1);
        let username = posts[n - 1].username@;
        let display = posts[n - 1].name@;
        if name != username && name != display {
            lemma_with_name_came(before, username, name);
            lemma_with_name_came(spec_with_name(before, username), display, name);
            lemma_names_known(posts, n - 1, name);
        }
    } else {
        assert(spec_author_names(posts, n) =~= Seq::<Seq<char>>::empty());
    }
}

/// A name that is there after another was seen is that one or was there
/// before.
pub proof fn lemma_with_name_came(names: Seq<Seq<char>>, name: Seq<char>, other: Seq<char>)
    requires
        spec_with_name(names, name).contains(other),
    ensures
        other == name || names.contains(other),
{
    if !names.contains(name) {
        let grown = names.push(name);
        let at = grown.index_of(other);
        assert(grown[at] == other);
        if at < names.len() {
            assert(names[at] == other);
        }
    }
}

/// Tells whether two posts agree on who is who: one username goes with one
/// display name, and a username is a display name of its own author only.
pub open spec fn spec_pair_agrees(a: Post, b: Post) -> bool {
    &&& a.username@ == b.username@ ==> a.name@ == b.name@
    &&& a.username@ == b.name@ ==> a.username@ == b.username@
}

/// Tells whether all posts of a batch agree on who is who.
pub open spec fn spec_one_name_per_author(posts: Seq<Post>) -> bool {
    forall|a: int, b: int|
        0 <= a < posts.len() && 0 <= b < posts.len() ==> #[trigger] spec_pair_agrees(
            posts[a],
            posts[b],
        )
}

/// Where the posts of a batch agree on who is who, every post gets one
/// alias for its username and its display name.
pub proof fn lemma_agreeing_posts_share(posts: Seq<Post>, i: int)
    requires
        spec_one_name_per_author(posts),
        0 <= i < posts.len(),
    ensures
        spec_post_shares(posts, i),
    decreases i,
{
    let names = spec_author_names(posts, i);
    let username = posts[i].username@;
    if names.contains(username) && names.contains(posts[i].name@) {
        lemma_names_known(posts, i, username);
        let j = lemma_known_witness(posts, i, username);
        assert(spec_pair_agrees(posts[i], posts[j]));
        assert(spec_pair_agrees(posts[j], posts[i]));
        lemma_agreeing_posts_share(posts, j);
        lemma_repeated_author_shares(posts, j, i);
    } else {
        reveal(spec_post_shares);
    }
}

/// Where the posts of a batch agree on who is who, the username and the
/// display name of every post have one and the same alias in every map
/// that holds what the authors were given.
pub proof fn lemma_agreeing_authors_share(map: NameMap, posts: Seq<Post>, i: int)
    requires
        spec_one_name_per_author(posts),
        spec_authors_named(map, posts, posts.len() as int),
        0 <= i < posts.len(),
    ensures
        map.contains(posts[i].username@),
        map.contains(posts[i].name@),
        map.alias_of(posts[i].username@) == map.alias_of(posts[i].name@),
{
    lemma_agreeing_posts_share(posts, i);
}

} // verus!
