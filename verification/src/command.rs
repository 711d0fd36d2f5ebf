//! The commands that a chat can give to the bot.
//!
//! A command starts with a mention of the bot, an `@` and a name, and goes on with words
//! that white space separates.
use vstd::prelude::*;

use crate::subscription::SubscriptionEvent;
use crate::text::{chars_of, is_space, is_white_space, same_text};

verus! {

/// What a message asks for.
pub enum Command {
    Help,
    Ping,
    Subscribe { repo: String, event: SubscriptionEvent },
    Unsubscribe { repo: String, event: SubscriptionEvent },
    List,
    Unsupported,
}

/// What a message asks for, over mathematical values.
pub enum CommandView {
    Help,
    Ping,
    Subscribe { repo: Seq<char>, event: SubscriptionEvent },
    Unsubscribe { repo: Seq<char>, event: SubscriptionEvent },
    List,
    Unsupported,
}

impl View for Command {
    type V = CommandView;

    open spec fn view(&self) -> CommandView {
        match *self {
            Command::Help => CommandView::Help,
            Command::Ping => CommandView::Ping,
            Command::Subscribe { repo, event } => CommandView::Subscribe { repo: repo@, event },
            Command::Unsubscribe { repo, event } => CommandView::Unsubscribe { repo: repo@, event },
            Command::List => CommandView::List,
            Command::Unsupported => CommandView::Unsupported,
        }
    }
}

/// The text is a word: characters, none of them white space.
pub open spec fn is_word(s: Seq<char>) -> bool {
    s.len() > 0 && crate::text::no_space(s)
}

/// The text is a gap between words: white space, and some of it.
pub open spec fn is_gap(s: Seq<char>) -> bool {
    s.len() > 0 && crate::text::all_space(s)
}

/// A mention of `who`, a gap, and one word.
pub open spec fn short_form(
    text: Seq<char>,
    who: Seq<char>,
    gap: Seq<char>,
    word: Seq<char>,
) -> bool {
    &&& text == seq!['@'] + who + gap + word
    &&& is_word(who)
    &&& is_gap(gap)
}

/// A mention of `who`, and three words behind gaps.
pub open spec fn long_form(
    text: Seq<char>,
    who: Seq<char>,
    gaps: (Seq<char>, Seq<char>, Seq<char>),
    verb: Seq<char>,
    repo: Seq<char>,
    kind: Seq<char>,
) -> bool {
    &&& text == seq!['@'] + who + gaps.0 + verb + gaps.1 + repo + gaps.2 + kind
    &&& is_word(who)
    &&& is_gap(gaps.0)
    &&& is_gap(gaps.1)
    &&& is_word(repo)
    &&& is_gap(gaps.2)
}

/// The text mentions someone and then says `word`.
pub open spec fn says(text: Seq<char>, word: Seq<char>) -> bool {
    exists|who: Seq<char>, gap: Seq<char>| #[trigger] short_form(text, who, gap, word)
}

/// The text mentions someone and then says `verb`, a repository and the kind of event.
pub open spec fn says_of(
    text: Seq<char>,
    verb: Seq<char>,
    repo: Seq<char>,
    event: SubscriptionEvent,
) -> bool {
    exists|who: Seq<char>, gaps: (Seq<char>, Seq<char>, Seq<char>)| #[trigger]
        long_form(text, who, gaps, verb, repo, event.word())
}

/// The text says `verb` of some repository and some kind of event.
pub open spec fn says_of_some(text: Seq<char>, verb: Seq<char>) -> bool {
    exists|repo: Seq<char>, event: SubscriptionEvent| #[trigger] says_of(text, verb, repo, event)
}

/// The repository and the kind of event of which the text says `verb`.
pub open spec fn object_of(text: Seq<char>, verb: Seq<char>) -> (Seq<char>, SubscriptionEvent) {
    choose|repo: Seq<char>, event: SubscriptionEvent| #[trigger] says_of(text, verb, repo, event)
}

/// The command that a text gives.
pub open spec fn command_of(text: Seq<char>) -> CommandView {
    if says(text, "help"@) {
        CommandView::Help
    } else if says(text, "ping"@) {
        CommandView::Ping
    } else if says_of_some(text, "subscribe"@) {
        CommandView::Subscribe {
            repo: object_of(text, "subscribe"@).0,
            event: object_of(text, "subscribe"@).1,
        }
    } else if says_of_some(text, "unsubscribe"@) {
        CommandView::Unsubscribe {
            repo: object_of(text, "unsubscribe"@).0,
            event: object_of(text, "unsubscribe"@).1,
        }
    } else if says(text, "list"@) {
        CommandView::List
    } else {
        CommandView::Unsupported
    }
}

/// Where a run of white space, or of other characters, that starts at `i` ends.
spec fn run_end(s: Seq<char>, i: int, space: bool) -> int
    decreases s.len() - i,
{
    if 0 <= i < s.len() && crate::text::is_space(s[i]) == space {
        run_end(s, i + 1, space)
    } else {
        i
    }
}

/// `j` is where the run that starts at `i` ends.
spec fn is_run(s: Seq<char>, i: int, j: int, space: bool) -> bool {
    &&& 0 <= i <= j <= s.len()
    &&& forall|k: int| i <= k < j ==> crate::text::is_space(#[trigger] s[k]) == space
    &&& j < s.len() ==> crate::text::is_space(s[j]) != space
}

proof fn lemma_run_end(s: Seq<char>, i: int, space: bool)
    requires
        0 <= i <= s.len(),
    ensures
        is_run(s, i, run_end(s, i, space), space),
    decreases s.len() - i,
{
    if i < s.len() && crate::text::is_space(s[i]) == space {
        lemma_run_end(s, i + 1, space);
    }
}

proof fn lemma_run_unique(s: Seq<char>, i: int, j: int, space: bool)
    requires
        is_run(s, i, j, space),
    ensures
        run_end(s, i, space) == j,
    decreases j - i,
{
    if i < j {
        assert(crate::text::is_space(s[i]) == space);
        lemma_run_unique(s, i + 1, j, space);
    }
}

/// The ends of the runs behind the `@`: name, gap, word, gap, word, gap, word.
spec fn cut(s: Seq<char>, n: nat) -> int
    decreases n,
{
    if n == 0 {
        1
    } else {
        run_end(s, cut(s, (n - 1) as nat), n % 2 == 0)
    }
}

proof fn lemma_cut(s: Seq<char>, n: nat)
    requires
        s.len() >= 1,
    ensures
        1 <= cut(s, n) <= s.len(),
        n > 0 ==> is_run(s, cut(s, (n - 1) as nat), cut(s, n), n % 2 == 0),
    decreases n,
{
    if n > 0 {
        lemma_cut(s, (n - 1) as nat);
        lemma_run_end(s, cut(s, (n - 1) as nat), n % 2 == 0);
    }
}

/// The text is a mention and one word, as the cuts show.
spec fn short_cut(s: Seq<char>, word: Seq<char>) -> bool {
    &&& s.len() >= 1
    &&& s[0] == '@'
    &&& 1 < cut(s, 1) < cut(s, 2) < cut(s, 3) == s.len()
    &&& s.subrange(cut(s, 2), cut(s, 3)) == word
}

/// The text is a mention and three words, as the cuts show.
spec fn long_cut(s: Seq<char>, verb: Seq<char>, repo: Seq<char>, kind: Seq<char>) -> bool {
    &&& s.len() >= 1
    &&& s[0] == '@'
    &&& 1 < cut(s, 1) < cut(s, 2) < cut(s, 3) < cut(s, 4) < cut(s, 5) < cut(s, 6) < cut(s, 7)
        == s.len()
    &&& s.subrange(cut(s, 2), cut(s, 3)) == verb
    &&& s.subrange(cut(s, 4), cut(s, 5)) == repo
    &&& s.subrange(cut(s, 6), cut(s, 7)) == kind
}

/// A word that stands at `i` and ends before white space or with the text is a run.
proof fn lemma_word_run(s: Seq<char>, i: int, j: int)
    requires
        0 <= i < j <= s.len(),
        is_word(s.subrange(i, j)),
        j < s.len() ==> crate::text::is_space(s[j]),
    ensures
        run_end(s, i, false) == j,
        !crate::text::is_space(s[i]),
{
    assert forall|k: int| i <= k < j implies !crate::text::is_space(#[trigger] s[k]) by {
        assert(s[k] == s.subrange(i, j)[k - i]);
    }
    lemma_run_unique(s, i, j, false);
}

/// A gap that stands at `i` and ends before a word is a run.
proof fn lemma_gap_run(s: Seq<char>, i: int, j: int)
    requires
        0 <= i < j < s.len(),
        is_gap(s.subrange(i, j)),
        !crate::text::is_space(s[j]),
    ensures
        run_end(s, i, true) == j,
        crate::text::is_space(s[i]),
{
    assert forall|k: int| i <= k < j implies crate::text::is_space(#[trigger] s[k]) by {
        assert(s[k] == s.subrange(i, j)[k - i]);
    }
    lemma_run_unique(s, i, j, true);
}

proof fn lemma_short(s: Seq<char>, word: Seq<char>)
    requires
        is_word(word),
    ensures
        says(s, word) == short_cut(s, word),
{
    if says(s, word) {
        let (who, gap) = choose|who: Seq<char>, gap: Seq<char>| #[trigger]
            short_form(s, who, gap, word);
        let c1 = 1 + who.len();
        let c2 = c1 + gap.len();
        assert(s.subrange(1, c1 as int) =~= who);
        assert(s.subrange(c1 as int, c2 as int) =~= gap);
        assert(s.subrange(c2 as int, s.len() as int) =~= word);
        lemma_word_run(s, c2 as int, s.len() as int);
        lemma_gap_run(s, c1 as int, c2 as int);
        lemma_word_run(s, 1, c1 as int);
        reveal_with_fuel(cut, 4);
    }
    if short_cut(s, word) {
        lemma_cut(s, 1);
        lemma_cut(s, 2);
        reveal_with_fuel(cut, 1);
        let who = s.subrange(1, cut(s, 1));
        let gap = s.subrange(cut(s, 1), cut(s, 2));
        assert(s =~= seq!['@'] + who + gap + word);
        assert(short_form(s, who, gap, word));
    }
}

proof fn lemma_long_cut(
    s: Seq<char>,
    who: Seq<char>,
    gaps: (Seq<char>, Seq<char>, Seq<char>),
    verb: Seq<char>,
    repo: Seq<char>,
    kind: Seq<char>,
)
    requires
        long_form(s, who, gaps, verb, repo, kind),
        is_word(verb),
        is_word(kind),
    ensures
        long_cut(s, verb, repo, kind),
{
    let c1 = 1 + who.len();
    let c2 = c1 + gaps.0.len();
    let c3 = c2 + verb.len();
    let c4 = c3 + gaps.1.len();
    let c5 = c4 + repo.len();
    let c6 = c5 + gaps.2.len();
    assert(s.len() == c6 + kind.len());
    assert(s.subrange(1, c1 as int) =~= who);
    assert(s.subrange(c1 as int, c2 as int) =~= gaps.0);
    assert(s.subrange(c2 as int, c3 as int) =~= verb);
    assert(s.subrange(c3 as int, c4 as int) =~= gaps.1);
    assert(s.subrange(c4 as int, c5 as int) =~= repo);
    assert(s.subrange(c5 as int, c6 as int) =~= gaps.2);
    assert(s.subrange(c6 as int, s.len() as int) =~= kind);
    lemma_word_run(s, c6 as int, s.len() as int);
    lemma_gap_run(s, c5 as int, c6 as int);
    lemma_word_run(s, c4 as int, c5 as int);
    lemma_gap_run(s, c3 as int, c4 as int);
    lemma_word_run(s, c2 as int, c3 as int);
    lemma_gap_run(s, c1 as int, c2 as int);
    lemma_word_run(s, 1, c1 as int);
    reveal_with_fuel(cut, 8);
}

proof fn lemma_long_form(s: Seq<char>, verb: Seq<char>, repo: Seq<char>, kind: Seq<char>) -> (parts: (
    Seq<char>,
    (Seq<char>, Seq<char>, Seq<char>),
))
    requires
        long_cut(s, verb, repo, kind),
    ensures
        long_form(s, parts.0, parts.1, verb, repo, kind),
{
    let who = s.subrange(1, cut(s, 1));
    let gaps = (
        s.subrange(cut(s, 1), cut(s, 2)),
        s.subrange(cut(s, 3), cut(s, 4)),
        s.subrange(cut(s, 5), cut(s, 6)),
    );
    assert(is_word(who)) by {
        lemma_cut(s, 1);
        reveal_with_fuel(cut, 1);
    }
    assert(is_gap(gaps.0)) by {
        lemma_cut(s, 2);
    }
    assert(is_gap(gaps.1)) by {
        lemma_cut(s, 4);
    }
    assert(is_word(repo)) by {
        lemma_cut(s, 5);
    }
    assert(is_gap(gaps.2)) by {
        lemma_cut(s, 6);
    }
    assert(s =~= seq!['@'] + who + gaps.0 + verb + gaps.1 + repo + gaps.2 + kind);
    (who, gaps)
}

proof fn lemma_long(s: Seq<char>, verb: Seq<char>, repo: Seq<char>, event: SubscriptionEvent)
    requires
        is_word(verb),
    ensures
        says_of(s, verb, repo, event) == long_cut(s, verb, repo, event.word()),
{
    let kind = event.word();
    lemma_event_word(event);
    if says_of(s, verb, repo, event) {
        let (who, gaps) = choose|who: Seq<char>, gaps: (Seq<char>, Seq<char>, Seq<char>)| #[trigger]
            long_form(s, who, gaps, verb, repo, kind);
        lemma_long_cut(s, who, gaps, verb, repo, kind);
    }
    if long_cut(s, verb, repo, kind) {
        let parts = lemma_long_form(s, verb, repo, kind);
        assert(long_form(s, parts.0, parts.1, verb, repo, kind));
    }
}

proof fn lemma_event_word(event: SubscriptionEvent)
    ensures
        is_word(event.word()),
{
    reveal_strlit("pr");
    reveal_strlit("issue");
}

/// The words of the commands are words, and differ.
proof fn lemma_literals()
    ensures
        is_word("help"@),
        is_word("ping"@),
        is_word("list"@),
        is_word("subscribe"@),
        is_word("unsubscribe"@),
        "help"@ != "ping"@,
        "help"@ != "list"@,
        "ping"@ != "list"@,
        "subscribe"@ != "unsubscribe"@,
        "pr"@ != "issue"@,
{
    reveal_strlit("help");
    reveal_strlit("ping");
    reveal_strlit("list");
    reveal_strlit("subscribe");
    reveal_strlit("unsubscribe");
    reveal_strlit("pr");
    reveal_strlit("issue");
    assert("help"@[0] != "ping"@[0]);
    assert("help"@[0] != "list"@[0]);
    assert("ping"@[0] != "list"@[0]);
    assert("pr"@.len() != "issue"@.len());
    assert("subscribe"@.len() != "unsubscribe"@.len());
}

/// The readings of a text follow its cuts.
proof fn lemma_readings(s: Seq<char>)
    ensures
        says(s, "help"@) == short_cut(s, "help"@),
        says(s, "ping"@) == short_cut(s, "ping"@),
        says(s, "list"@) == short_cut(s, "list"@),
        forall|repo: Seq<char>, event: SubscriptionEvent| #[trigger]
            says_of(s, "subscribe"@, repo, event) == long_cut(
                s,
                "subscribe"@,
                repo,
                event.word(),
            ),
        forall|repo: Seq<char>, event: SubscriptionEvent| #[trigger]
            says_of(s, "unsubscribe"@, repo, event) == long_cut(
                s,
                "unsubscribe"@,
                repo,
                event.word(),
            ),
{
    lemma_literals();
    lemma_short(s, "help"@);
    lemma_short(s, "ping"@);
    lemma_short(s, "list"@);
    assert forall|repo: Seq<char>, event: SubscriptionEvent| #[trigger]
        says_of(s, "subscribe"@, repo, event) == long_cut(s, "subscribe"@, repo, event.word()) by {
        lemma_long(s, "subscribe"@, repo, event);
    }
    assert forall|repo: Seq<char>, event: SubscriptionEvent| #[trigger]
        says_of(s, "unsubscribe"@, repo, event) == long_cut(
            s,
            "unsubscribe"@,
            repo,
            event.word(),
        ) by {
        lemma_long(s, "unsubscribe"@, repo, event);
    }
}

/// Finds where the run that starts at `i` ends.
fn scan(chars: &Vec<char>, i: usize, space: bool) -> (r: usize)
    requires
        i <= chars@.len(),
    ensures
        r == run_end(chars@, i as int, space),
        i <= r <= chars@.len(),
{
    let mut j: usize = i;
    while j < chars.len() && is_white_space(chars[j]) == space
        invariant
            i <= j <= chars@.len(),
            run_end(chars@, j as int, space) == run_end(chars@, i as int, space),
        decreases chars.len() - j,
    {
        j = j + 1;
    }
    j
}

/// Reads the kind of event that a word stands for.
fn event_of(word: &str) -> (r: Option<SubscriptionEvent>)
    ensures
        match r {
            Some(event) => event.word() == word@,
            None => forall|event: SubscriptionEvent| (#[trigger] event.word()) != word@,
        },
{
    if same_text(word, "pr") {
        Some(SubscriptionEvent::PullRequest)
    } else if same_text(word, "issue") {
        Some(SubscriptionEvent::Issue)
    } else {
        None
    }
}

/// Reads the command that a text gives.
pub fn parse_command(text: &str) -> (r: Command)
    ensures
        r@ == command_of(text@),
{
    let chars = chars_of(text);
    let ghost s = text@;
    proof {
        lemma_readings(s);
        lemma_literals();
        reveal_with_fuel(cut, 8);
    }
    if chars.len() == 0 || chars[0] != '@' {
        return Command::Unsupported;
    }
    let c1 = scan(&chars, 1, false);
    let c2 = scan(&chars, c1, true);
    let c3 = scan(&chars, c2, false);
    if c1 == 1 || c2 == c1 || c3 == c2 {
        return Command::Unsupported;
    }
    let verb = text.substring_char(c2, c3);
    if c3 == chars.len() {
        if same_text(verb, "help") {
            return Command::Help;
        }
        if same_text(verb, "ping") {
            return Command::Ping;
        }
        if same_text(verb, "list") {
            return Command::List;
        }
        return Command::Unsupported;
    }
    let c4 = scan(&chars, c3, true);
    let c5 = scan(&chars, c4, false);
    let c6 = scan(&chars, c5, true);
    let c7 = scan(&chars, c6, false);
    if c4 == c3 || c5 == c4 || c6 == c5 || c7 == c6 || c7 < chars.len() {
        return Command::Unsupported;
    }
    let repo = text.substring_char(c4, c5);
    match event_of(text.substring_char(c6, c7)) {
        None => Command::Unsupported,
        Some(event) => {
            if same_text(verb, "subscribe") {
                assert(says_of(s, "subscribe"@, repo@, event));
                Command::Subscribe { repo: repo.to_string(), event }
            } else if same_text(verb, "unsubscribe") {
                assert(says_of(s, "unsubscribe"@, repo@, event));
                Command::Unsubscribe { repo: repo.to_string(), event }
            } else {
                Command::Unsupported
            }
        },
    }
}

/// A text can be read as a command.
pub open spec fn reads_as(text: Seq<char>, command: CommandView) -> bool {
    match command {
        CommandView::Help => says(text, "help"@),
        CommandView::Ping => says(text, "ping"@),
        CommandView::List => says(text, "list"@),
        CommandView::Subscribe { repo, event } => says_of(text, "subscribe"@, repo, event),
        CommandView::Unsubscribe { repo, event } => says_of(text, "unsubscribe"@, repo, event),
        CommandView::Unsupported => {
            &&& !says(text, "help"@)
            &&& !says(text, "ping"@)
            &&& !says(text, "list"@)
            &&& !says_of_some(text, "subscribe"@)
            &&& !says_of_some(text, "unsubscribe"@)
        },
    }
}

/// A text has one reading only, whatever its words: it is the command of the text.
pub proof fn law_one_reading(text: Seq<char>, command: CommandView)
    ensures
        reads_as(text, command) <==> command_of(text) == command,
{
    lemma_readings(text);
    lemma_literals();
}

/// A command is understood whoever is mentioned, however wide the gaps are and whatever
/// the repository is called.
pub proof fn law_written_commands(
    who: Seq<char>,
    gaps: (Seq<char>, Seq<char>, Seq<char>),
    repo: Seq<char>,
    event: SubscriptionEvent,
)
    requires
        who.len() > 0,
        forall|i: int| 0 <= i < who.len() ==> !is_space(#[trigger] who[i]),
        gaps.0.len() > 0,
        forall|i: int| 0 <= i < gaps.0.len() ==> is_space(#[trigger] gaps.0[i]),
        gaps.1.len() > 0,
        forall|i: int| 0 <= i < gaps.1.len() ==> is_space(#[trigger] gaps.1[i]),
        gaps.2.len() > 0,
        forall|i: int| 0 <= i < gaps.2.len() ==> is_space(#[trigger] gaps.2[i]),
        repo.len() > 0,
        forall|i: int| 0 <= i < repo.len() ==> !is_space(#[trigger] repo[i]),
    ensures
        command_of(seq!['@'] + who + gaps.0 + "help"@) == CommandView::Help,
        command_of(seq!['@'] + who + gaps.0 + "ping"@) == CommandView::Ping,
        command_of(seq!['@'] + who + gaps.0 + "list"@) == CommandView::List,
        command_of(
            seq!['@'] + who + gaps.0 + "subscribe"@ + gaps.1 + repo + gaps.2 + (match event {
                SubscriptionEvent::PullRequest => "pr"@,
                SubscriptionEvent::Issue => "issue"@,
            }),
        ) == (CommandView::Subscribe { repo, event }),
        command_of(
            seq!['@'] + who + gaps.0 + "unsubscribe"@ + gaps.1 + repo + gaps.2 + (match event {
                SubscriptionEvent::PullRequest => "pr"@,
                SubscriptionEvent::Issue => "issue"@,
            }),
        ) == (CommandView::Unsubscribe { repo, event }),
{
    let help = seq!['@'] + who + gaps.0 + "help"@;
    assert(short_form(help, who, gaps.0, "help"@));
    law_one_reading(help, CommandView::Help);
    let ping = seq!['@'] + who + gaps.0 + "ping"@;
    assert(short_form(ping, who, gaps.0, "ping"@));
    law_one_reading(ping, CommandView::Ping);
    let list = seq!['@'] + who + gaps.0 + "list"@;
    assert(short_form(list, who, gaps.0, "list"@));
    law_one_reading(list, CommandView::List);
    let on = seq!['@'] + who + gaps.0 + "subscribe"@ + gaps.1 + repo + gaps.2 + event.word();
    assert(long_form(on, who, gaps, "subscribe"@, repo, event.word()));
    law_one_reading(on, CommandView::Subscribe { repo, event });
    let off = seq!['@'] + who + gaps.0 + "unsubscribe"@ + gaps.1 + repo + gaps.2 + event.word();
    assert(long_form(off, who, gaps, "unsubscribe"@, repo, event.word()));
    law_one_reading(off, CommandView::Unsubscribe { repo, event });
}

/// The repository of a subscription is one word, and so is never empty.
pub proof fn law_repositories_are_words(text: Seq<char>)
    ensures
        match command_of(text) {
            CommandView::Subscribe { repo, event } => repo.len() > 0 && forall|i: int|
                0 <= i < repo.len() ==> !is_space(#[trigger] repo[i]),
            CommandView::Unsubscribe { repo, event } => repo.len() > 0 && forall|i: int|
                0 <= i < repo.len() ==> !is_space(#[trigger] repo[i]),
            _ => true,
        },
{
    law_one_reading(text, command_of(text));
}

/// White space around a command does not matter, and trimming leaves a command as it is.
pub proof fn law_padding_is_ignored(left: Seq<char>, text: Seq<char>, right: Seq<char>)
    requires
        forall|i: int| 0 <= i < left.len() ==> is_space(#[trigger] left[i]),
        forall|i: int| 0 <= i < right.len() ==> is_space(#[trigger] right[i]),
    ensures
        command_of(crate::text::trimmed(left + text + right)) == command_of(
            crate::text::trimmed(text),
        ),
        !(command_of(text) is Unsupported) ==> crate::text::trimmed(text) == text,
{
    crate::text::law_trimmed(left, text, right);
    if !(command_of(text) is Unsupported) {
        law_one_reading(text, command_of(text));
        lemma_readings(text);
        lemma_cut(text, 3);
        lemma_cut(text, 7);
        assert(!crate::text::is_space(text[0]));
        assert(!crate::text::is_space(text.last()));
    }
}

/// A text that is understood has one of the written forms: an `@` with a name behind it, a
/// gap, and the word of the command, with the repository and the word for the kind of event
/// behind two more gaps where the command takes them. Every other text is unsupported.
pub proof fn law_only_written_commands_are_understood(text: Seq<char>)
    ensures
        match command_of(text) {
            CommandView::Help => exists|who: Seq<char>, gap: Seq<char>|
                #![trigger seq!['@'] + who + gap]
                {
                    &&& text == seq!['@'] + who + gap + "help"@
                    &&& who.len() > 0 && forall|i: int|
                        0 <= i < who.len() ==> !is_space(#[trigger] who[i])
                    &&& gap.len() > 0 && forall|i: int|
                        0 <= i < gap.len() ==> is_space(#[trigger] gap[i])
                },
            CommandView::Ping => exists|who: Seq<char>, gap: Seq<char>|
                #![trigger seq!['@'] + who + gap]
                {
                    &&& text == seq!['@'] + who + gap + "ping"@
                    &&& who.len() > 0 && forall|i: int|
                        0 <= i < who.len() ==> !is_space(#[trigger] who[i])
                    &&& gap.len() > 0 && forall|i: int|
                        0 <= i < gap.len() ==> is_space(#[trigger] gap[i])
                },
            CommandView::List => exists|who: Seq<char>, gap: Seq<char>|
                #![trigger seq!['@'] + who + gap]
                {
                    &&& text == seq!['@'] + who + gap + "list"@
                    &&& who.len() > 0 && forall|i: int|
                        0 <= i < who.len() ==> !is_space(#[trigger] who[i])
                    &&& gap.len() > 0 && forall|i: int|
                        0 <= i < gap.len() ==> is_space(#[trigger] gap[i])
                },
            CommandView::Subscribe { repo, event } => exists|
                who: Seq<char>,
                a: Seq<char>,
                b: Seq<char>,
                c: Seq<char>,
            |
                #![trigger seq!['@'] + who + a + "subscribe"@ + b + repo + c]
                {
                    &&& text == seq!['@'] + who + a + "subscribe"@ + b + repo + c + (match event {
                        SubscriptionEvent::PullRequest => "pr"@,
                        SubscriptionEvent::Issue => "issue"@,
                    })
                    &&& who.len() > 0 && forall|i: int|
                        0 <= i < who.len() ==> !is_space(#[trigger] who[i])
                    &&& a.len() > 0 && forall|i: int| 0 <= i < a.len() ==> is_space(#[trigger] a[i])
                    &&& b.len() > 0 && forall|i: int| 0 <= i < b.len() ==> is_space(#[trigger] b[i])
                    &&& c.len() > 0 && forall|i: int| 0 <= i < c.len() ==> is_space(#[trigger] c[i])
                },
            CommandView::Unsubscribe { repo, event } => exists|
                who: Seq<char>,
                a: Seq<char>,
                b: Seq<char>,
                c: Seq<char>,
            |
                #![trigger seq!['@'] + who + a + "unsubscribe"@ + b + repo + c]
                {
                    &&& text == seq!['@'] + who + a + "unsubscribe"@ + b + repo + c + (match event {
                        SubscriptionEvent::PullRequest => "pr"@,
                        SubscriptionEvent::Issue => "issue"@,
                    })
                    &&& who.len() > 0 && forall|i: int|
                        0 <= i < who.len() ==> !is_space(#[trigger] who[i])
                    &&& a.len() > 0 && forall|i: int| 0 <= i < a.len() ==> is_space(#[trigger] a[i])
                    &&& b.len() > 0 && forall|i: int| 0 <= i < b.len() ==> is_space(#[trigger] b[i])
                    &&& c.len() > 0 && forall|i: int| 0 <= i < c.len() ==> is_space(#[trigger] c[i])
                },
            CommandView::Unsupported => true,
        },
{
    law_one_reading(text, command_of(text));
    match command_of(text) {
        CommandView::Help => {
            let (who, gap) = choose|who: Seq<char>, gap: Seq<char>| #[trigger]
                short_form(text, who, gap, "help"@);
            assert(text == seq!['@'] + who + gap + "help"@);
        },
        CommandView::Ping => {
            let (who, gap) = choose|who: Seq<char>, gap: Seq<char>| #[trigger]
                short_form(text, who, gap, "ping"@);
            assert(text == seq!['@'] + who + gap + "ping"@);
        },
        CommandView::List => {
            let (who, gap) = choose|who: Seq<char>, gap: Seq<char>| #[trigger]
                short_form(text, who, gap, "list"@);
            assert(text == seq!['@'] + who + gap + "list"@);
        },
        CommandView::Subscribe { repo, event } => {
            let (who, gaps) = choose|who: Seq<char>, gaps: (Seq<char>, Seq<char>, Seq<char>)|
                #[trigger]
                long_form(text, who, gaps, "subscribe"@, repo, event.word());
            assert(text == seq!['@'] + who + gaps.0 + "subscribe"@ + gaps.1 + repo + gaps.2
                + event.word());
        },
        CommandView::Unsubscribe { repo, event } => {
            let (who, gaps) = choose|who: Seq<char>, gaps: (Seq<char>, Seq<char>, Seq<char>)|
                #[trigger]
                long_form(text, who, gaps, "unsubscribe"@, repo, event.word());
            assert(text == seq!['@'] + who + gaps.0 + "unsubscribe"@ + gaps.1 + repo + gaps.2
                + event.word());
        },
        CommandView::Unsupported => {},
    }
}

/// A command is seen whole: its kind, its repository and its kind of event.
pub proof fn law_command_is_seen_whole(command: Command)
    ensures
        match command {
            Command::Help => command@ == CommandView::Help,
            Command::Ping => command@ == CommandView::Ping,
            Command::List => command@ == CommandView::List,
            Command::Unsupported => command@ == CommandView::Unsupported,
            Command::Subscribe { repo, event } => command@ == (CommandView::Subscribe {
                repo: repo@,
                event,
            }),
            Command::Unsubscribe { repo, event } => command@ == (CommandView::Unsubscribe {
                repo: repo@,
                event,
            }),
        },
{
}

} // verus!
