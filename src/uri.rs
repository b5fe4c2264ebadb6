use vstd::prelude::*;
use vstd::string::*;
use crate::text::{first_index_of, has_prefix, find_char, same_text, starts_with_text, lemma_first_index_at};

verus! {

/// Prefix that the scheme handler hands over in front of the payload.
pub const SCHEME_PREFIX: &'static str = "syntax-player://";

pub const SEGMENT_DELIMITER: char = '+';

pub const KEY_DELIMITER: char = ':';

pub const KEY_LAUNCH_MODE: &'static str = "launchmode";

pub const KEY_TICKET: &'static str = "gameinfo";

pub const KEY_JOIN_URL: &'static str = "placelauncherurl";

pub const KEY_CLIENT_YEAR: &'static str = "clientyear";

pub const MODE_PLAY: &'static str = "play";

pub const YEAR_VARIANT_A: &'static str = "2018";

pub const YEAR_VARIANT_B: &'static str = "2020";

#[derive(PartialEq, Eq, Debug, Clone, Copy)]
pub enum LaunchMode {
    Play,
    Unknown,
}

#[derive(PartialEq, Eq, Debug, Clone, Copy)]
pub enum ClientVariant {
    Default,
    VariantA,
    VariantB,
}

/// What the launch URI asks for.
#[derive(Debug)]
pub struct LaunchIntent {
    pub mode: LaunchMode,
    pub auth_ticket: String,
    pub join_url: String,
    pub client_variant: ClientVariant,
}

pub struct IntentView {
    pub mode: LaunchMode,
    pub auth_ticket: Seq<char>,
    pub join_url: Seq<char>,
    pub client_variant: ClientVariant,
}

impl View for LaunchIntent {
    type V = IntentView;

    open spec fn view(&self) -> IntentView {
        IntentView {
            mode: self.mode,
            auth_ticket: self.auth_ticket@,
            join_url: self.join_url@,
            client_variant: self.client_variant,
        }
    }
}

/// The intent of an empty payload: every field at its default.
pub open spec fn default_intent() -> IntentView {
    IntentView {
        mode: LaunchMode::Unknown,
        auth_ticket: Seq::empty(),
        join_url: Seq::empty(),
        client_variant: ClientVariant::Default,
    }
}

/// The payload with the scheme prefix taken off, where it is there.
pub open spec fn strip_scheme(raw: Seq<char>) -> Seq<char> {
    if has_prefix(raw, SCHEME_PREFIX@) {
        raw.skip(SCHEME_PREFIX@.len() as int)
    } else {
        raw
    }
}

/// `s` cut at every segment delimiter; always at least one segment.
pub open spec fn split_segments(s: Seq<char>) -> Seq<Seq<char>>
    decreases s.len(),
{
    if s.len() == 0 {
        seq![Seq::<char>::empty()]
    } else {
        let prev = split_segments(s.drop_last());
        if s.last() == SEGMENT_DELIMITER {
            prev.push(Seq::<char>::empty())
        } else {
            prev.update(prev.len() - 1, prev.last().push(s.last()))
        }
    }
}

pub open spec fn mode_of(value: Seq<char>) -> LaunchMode {
    if value == MODE_PLAY@ {
        LaunchMode::Play
    } else {
        LaunchMode::Unknown
    }
}

pub open spec fn variant_of(value: Seq<char>) -> ClientVariant {
    if value == YEAR_VARIANT_A@ {
        ClientVariant::VariantA
    } else if value == YEAR_VARIANT_B@ {
        ClientVariant::VariantB
    } else {
        ClientVariant::Default
    }
}

/// One `key:value` segment applied to an intent; the value is all that follows
/// the first key delimiter, and an unknown key or a segment without a
/// delimiter changes nothing.
pub open spec fn apply_segment(it: IntentView, seg: Seq<char>) -> IntentView {
    let k = first_index_of(seg, KEY_DELIMITER);
    if k < 0 {
        it
    } else {
        let key = seg.take(k);
        let value = seg.skip(k + 1);
        if key == KEY_LAUNCH_MODE@ {
            IntentView { mode: mode_of(value), ..it }
        } else if key == KEY_TICKET@ {
            IntentView { auth_ticket: value, ..it }
        } else if key == KEY_JOIN_URL@ {
            IntentView { join_url: value, ..it }
        } else if key == KEY_CLIENT_YEAR@ {
            IntentView { client_variant: variant_of(value), ..it }
        } else {
            it
        }
    }
}

/// The segments applied in order, starting from the default intent.
pub open spec fn intent_of_segments(segs: Seq<Seq<char>>) -> IntentView
    decreases segs.len(),
{
    if segs.len() == 0 {
        default_intent()
    } else {
        apply_segment(intent_of_segments(segs.drop_last()), segs.last())
    }
}

/// The intent that a raw launch argument describes.
pub open spec fn intent_of(raw: Seq<char>) -> IntentView {
    intent_of_segments(split_segments(strip_scheme(raw)))
}

pub proof fn lemma_split_nonempty(s: Seq<char>)
    ensures
        split_segments(s).len() >= 1,
    decreases s.len(),
{
    if s.len() > 0 {
        lemma_split_nonempty(s.drop_last());
    }
}

/// A text without delimiter is a single segment.
pub proof fn lemma_split_single(s: Seq<char>)
    requires
        !s.contains(SEGMENT_DELIMITER),
    ensures
        split_segments(s) == seq![s],
    decreases s.len(),
{
    if s.len() > 0 {
        let p = s.drop_last();
        assert(!p.contains(SEGMENT_DELIMITER)) by {
            if p.contains(SEGMENT_DELIMITER) {
                let j = choose|j: int| 0 <= j < p.len() && p[j] == SEGMENT_DELIMITER;
                assert(s[j] == SEGMENT_DELIMITER);
            }
        }
        lemma_split_single(p);
        assert(s[s.len() - 1] != SEGMENT_DELIMITER);
        assert(p.push(s.last()) =~= s);
        assert(seq![p].update(0, p.push(s.last())) =~= seq![s]);
    } else {
        assert(s =~= Seq::<char>::empty());
    }
}

/// Joining with a delimiter appends one delimiter-free segment to the split.
pub proof fn lemma_split_append(a: Seq<char>, b: Seq<char>)
    requires
        !b.contains(SEGMENT_DELIMITER),
    ensures
        split_segments(a + seq![SEGMENT_DELIMITER] + b) == split_segments(a).push(b),
    decreases b.len(),
{
    let ad = a + seq![SEGMENT_DELIMITER];
    if b.len() == 0 {
        assert(b =~= Seq::<char>::empty());
        assert(ad + b =~= ad);
        assert(ad.last() == SEGMENT_DELIMITER);
        assert(ad.drop_last() =~= a);
    } else {
        let bp = b.drop_last();
        assert(!bp.contains(SEGMENT_DELIMITER)) by {
            if bp.contains(SEGMENT_DELIMITER) {
                let j = choose|j: int| 0 <= j < bp.len() && bp[j] == SEGMENT_DELIMITER;
                assert(b[j] == SEGMENT_DELIMITER);
            }
        }
        lemma_split_append(a, bp);
        assert((ad + b).drop_last() =~= ad + bp);
        assert(b[b.len() - 1] != SEGMENT_DELIMITER);
        assert((ad + b).last() == b.last());
        lemma_split_nonempty(a);
        let prev = split_segments(a).push(bp);
        assert(prev.update(prev.len() - 1, bp.push(b.last())) =~= split_segments(a).push(b)) by {
            assert(bp.push(b.last()) =~= b);
        }
    }
}

/// A `key:value` segment.
pub open spec fn key_value(key: Seq<char>, value: Seq<char>) -> Seq<char> {
    key + seq![KEY_DELIMITER] + value
}

/// The payload `launchmode:play+gameinfo:<ticket>+placelauncherurl:<join_url>`.
pub open spec fn play_payload(ticket: Seq<char>, join_url: Seq<char>) -> Seq<char> {
    key_value(KEY_LAUNCH_MODE@, MODE_PLAY@) + seq![SEGMENT_DELIMITER] + key_value(KEY_TICKET@, ticket)
        + seq![SEGMENT_DELIMITER] + key_value(KEY_JOIN_URL@, join_url)
}

/// The value of a segment is all that follows the first key delimiter, once
/// the key holds none.
pub proof fn lemma_key_value_split(key: Seq<char>, value: Seq<char>)
    requires
        !key.contains(KEY_DELIMITER),
    ensures
        first_index_of(key_value(key, value), KEY_DELIMITER) == key.len(),
        key_value(key, value).take(key.len() as int) == key,
        key_value(key, value).skip(key.len() as int + 1) == value,
{
    let kv = key_value(key, value);
    assert forall|j: int| 0 <= j < key.len() implies kv[j] != KEY_DELIMITER by {
        assert(kv[j] == key[j]);
        if key[j] == KEY_DELIMITER {
            assert(key.contains(KEY_DELIMITER));
        }
    }
    lemma_first_index_at(kv, KEY_DELIMITER, key.len() as int);
    assert(kv.take(key.len() as int) =~= key);
    assert(kv.skip(key.len() as int + 1) =~= value);
}

proof fn lemma_no_delimiters(s: Seq<char>)
    requires
        forall|j: int| 0 <= j < s.len() ==> s[j] != KEY_DELIMITER && s[j] != SEGMENT_DELIMITER,
    ensures
        !s.contains(KEY_DELIMITER),
        !s.contains(SEGMENT_DELIMITER),
{
}

/// A payload that asks to play with ticket `ticket` and join URL `join_url`,
/// neither holding a segment delimiter, parses to exactly that intent: mode
/// play, that ticket, that join URL, and the default client variant.
pub proof fn lemma_play_payload_round_trip(ticket: Seq<char>, join_url: Seq<char>)
    requires
        !ticket.contains(SEGMENT_DELIMITER),
        !join_url.contains(SEGMENT_DELIMITER),
    ensures
        intent_of(play_payload(ticket, join_url)) == (IntentView {
            mode: LaunchMode::Play,
            auth_ticket: ticket,
            join_url,
            client_variant: ClientVariant::Default,
        }),
{
    reveal_strlit("launchmode");
    reveal_strlit("play");
    reveal_strlit("gameinfo");
    reveal_strlit("placelauncherurl");
    reveal_strlit("clientyear");
    reveal_strlit("syntax-player://");
    let mode_seg = key_value(KEY_LAUNCH_MODE@, MODE_PLAY@);
    let ticket_seg = key_value(KEY_TICKET@, ticket);
    let join_seg = key_value(KEY_JOIN_URL@, join_url);
    let raw = play_payload(ticket, join_url);
    lemma_no_delimiters(KEY_LAUNCH_MODE@);
    lemma_no_delimiters(MODE_PLAY@);
    lemma_no_delimiters(KEY_TICKET@);
    lemma_no_delimiters(KEY_JOIN_URL@);
    // the payload does not start with the scheme prefix
    assert(raw[0] == 'l');
    assert(!has_prefix(raw, SCHEME_PREFIX@)) by {
        if has_prefix(raw, SCHEME_PREFIX@) {
            assert(raw.take(SCHEME_PREFIX@.len() as int)[0] == 's');
        }
    }
    assert(!mode_seg.contains(SEGMENT_DELIMITER)) by {
        if mode_seg.contains(SEGMENT_DELIMITER) {
            let j = choose|j: int| 0 <= j < mode_seg.len() && mode_seg[j] == SEGMENT_DELIMITER;
            assert(j < 10 ==> mode_seg[j] == KEY_LAUNCH_MODE@[j]);
            assert(j > 10 ==> mode_seg[j] == MODE_PLAY@[j - 11]);
        }
    }
    assert(!ticket_seg.contains(SEGMENT_DELIMITER)) by {
        if ticket_seg.contains(SEGMENT_DELIMITER) {
            let j = choose|j: int| 0 <= j < ticket_seg.len() && ticket_seg[j] == SEGMENT_DELIMITER;
            assert(j < 8 ==> ticket_seg[j] == KEY_TICKET@[j]);
            assert(j > 8 ==> ticket_seg[j] == ticket[j - 9]);
        }
    }
    assert(!join_seg.contains(SEGMENT_DELIMITER)) by {
        if join_seg.contains(SEGMENT_DELIMITER) {
            let j = choose|j: int| 0 <= j < join_seg.len() && join_seg[j] == SEGMENT_DELIMITER;
            assert(j < 16 ==> join_seg[j] == KEY_JOIN_URL@[j]);
            assert(j > 16 ==> join_seg[j] == join_url[j - 17]);
        }
    }
    lemma_split_single(mode_seg);
    lemma_split_append(mode_seg, ticket_seg);
    lemma_split_append(mode_seg + seq![SEGMENT_DELIMITER] + ticket_seg, join_seg);
    let segs = seq![mode_seg, ticket_seg, join_seg];
    assert(split_segments(raw) =~= segs);
    lemma_key_value_split(KEY_LAUNCH_MODE@, MODE_PLAY@);
    lemma_key_value_split(KEY_TICKET@, ticket);
    lemma_key_value_split(KEY_JOIN_URL@, join_url);
    assert(segs.drop_last() =~= seq![mode_seg, ticket_seg]);
    assert(segs.drop_last().drop_last() =~= seq![mode_seg]);
    assert(segs.drop_last().drop_last().drop_last() =~= Seq::<Seq<char>>::empty());
    assert(KEY_TICKET@ != KEY_LAUNCH_MODE@);
    assert(KEY_JOIN_URL@ != KEY_LAUNCH_MODE@);
    assert(KEY_JOIN_URL@ != KEY_TICKET@);
    let i1 = apply_segment(default_intent(), mode_seg);
    let i2 = apply_segment(i1, ticket_seg);
    let i3 = apply_segment(i2, join_seg);
    assert(intent_of_segments(seq![mode_seg]) == i1) by {
        assert(intent_of_segments(Seq::<Seq<char>>::empty()) == default_intent());
    }
    assert(intent_of_segments(seq![mode_seg, ticket_seg]) == i2) by {
        assert(seq![mode_seg, ticket_seg].drop_last() =~= seq![mode_seg]);
    }
    assert(intent_of_segments(segs) == i3);
    assert(strip_scheme(raw) == raw);
    assert(i1.mode == LaunchMode::Play);
    assert(i3.auth_ticket == ticket);
}

/// Applies one segment, `seg`, of the payload to `intent`.
fn apply_segment_to(intent: &mut LaunchIntent, seg: &str)
    ensures
        final(intent)@ == apply_segment(old(intent)@, seg@),
{
    let k = match find_char(seg, KEY_DELIMITER) {
        Some(k) => k,
        None => return,
    };
    let n = seg.unicode_len();
    let key = seg.substring_char(0, k);
    let value = seg.substring_char(k + 1, n);
    assert(key@ =~= seg@.take(k as int));
    assert(value@ =~= seg@.skip(k as int + 1));
    if same_text(key, KEY_LAUNCH_MODE) {
        intent.mode = if same_text(value, MODE_PLAY) {
            LaunchMode::Play
        } else {
            LaunchMode::Unknown
        };
    } else if same_text(key, KEY_TICKET) {
        intent.auth_ticket = String::from_str(value);
    } else if same_text(key, KEY_JOIN_URL) {
        intent.join_url = String::from_str(value);
    } else if same_text(key, KEY_CLIENT_YEAR) {
        intent.client_variant = if same_text(value, YEAR_VARIANT_A) {
            ClientVariant::VariantA
        } else if same_text(value, YEAR_VARIANT_B) {
            ClientVariant::VariantB
        } else {
            ClientVariant::Default
        };
    }
}

/// What a start of the launcher asks for.
#[derive(Debug)]
pub enum LaunchEntry {
    /// No argument: open the general web entry point.
    OpenDefault,
    /// A launch URI.
    Launch(LaunchIntent),
}

/// Reads the arguments after the program name: none means the general web
/// entry point, otherwise the first is the launch URI, parsed leniently.
pub fn launch_entry(args: &Vec<String>) -> (r: LaunchEntry)
    ensures
        args@.len() == 0 ==> r is OpenDefault,
        args@.len() > 0 ==> (r matches LaunchEntry::Launch(it) && it@ == intent_of(args@[0]@)),
{
    if args.len() == 0 {
        LaunchEntry::OpenDefault
    } else {
        LaunchEntry::Launch(parse_launch_uri(args[0].as_str()))
    }
}

/// Parses a launch argument into an intent: the scheme prefix is dropped,
/// the rest is cut into `key:value` segments, recognised keys fill their
/// field, and everything else keeps its default.
pub fn parse_launch_uri(raw: &str) -> (r: LaunchIntent)
    ensures
        r@ == intent_of(raw@),
{
    let n_raw = raw.unicode_len();
    let p = SCHEME_PREFIX.unicode_len();
    let body = if starts_with_text(raw, SCHEME_PREFIX) {
        raw.substring_char(p, n_raw)
    } else {
        raw.substring_char(0, n_raw)
    };
    assert(body@ =~= strip_scheme(raw@));
    let mut intent = LaunchIntent {
        mode: LaunchMode::Unknown,
        auth_ticket: String::new(),
        join_url: String::new(),
        client_variant: ClientVariant::Default,
    };
    let n = body.unicode_len();
    let mut start: usize = 0;
    let mut i: usize = 0;
    let ghost mut done: Seq<Seq<char>> = Seq::empty();
    assert(body@.take(0) =~= Seq::<char>::empty());
    assert(body@.subrange(0, 0) =~= Seq::<char>::empty());
    while i < n
        invariant
            n == body@.len(),
            start <= i <= n,
            split_segments(body@.take(i as int)) == done.push(body@.subrange(start as int, i as int)),
            intent@ == intent_of_segments(done),
        decreases n - i,
    {
        let c = body.get_char(i);
        let ghost cur = body@.subrange(start as int, i as int);
        assert(body@.take(i as int + 1).drop_last() =~= body@.take(i as int));
        assert(body@.take(i as int + 1).last() == c);
        if c == SEGMENT_DELIMITER {
            let seg = body.substring_char(start, i);
            apply_segment_to(&mut intent, seg);
            proof {
                assert(done.push(cur).drop_last() =~= done);
                done = done.push(cur);
                assert(body@.subrange(i as int + 1, i as int + 1) =~= Seq::<char>::empty());
            }
            start = i + 1;
        } else {
            proof {
                let prev = done.push(cur);
                assert(cur.push(c) =~= body@.subrange(start as int, i as int + 1));
                assert(prev.update(prev.len() - 1, cur.push(c)) =~= done.push(
                    body@.subrange(start as int, i as int + 1),
                ));
            }
        }
        i = i + 1;
    }
    let seg = body.substring_char(start, n);
    apply_segment_to(&mut intent, seg);
    proof {
        let last = body@.subrange(start as int, n as int);
        assert(body@.take(n as int) =~= body@);
        assert(done.push(last).drop_last() =~= done);
    }
    intent
}

} // verus!
