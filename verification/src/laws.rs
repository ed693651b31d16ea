use vstd::prelude::*;
use vstd::std_specs::cmp::PartialEqSpec;
use crate::capture::{
    enhanced_packet_block, interface_description_block, le_bytes, packet_block_head,
    packet_block_len, packet_block_tail, packet_comment, pad_to_four, section_header_block, zeros,
};
use crate::connection::{
    post_route_outcome, pre_route_outcome, BufferLimits, PostRouteAction, PreRouteAction,
    RequestCycle, RequestEvent,
};
use crate::derive::{
    fed, first_occurrences, formula_conflicts, formula_results, lemma_position_from_bounds,
    result_of, conflicted_in, MatchAtom, SessionModel,
};
use crate::frames::{header_stream_after, DecoderPoll, HeaderStreamAction};
use crate::http_passenger::{
    http_decode_step, lemma_next_index_of_bounds, next_index_of, request_line_text,
};
use crate::route::{ascii_lowercase, first_matching, strategy_matches, MatchStrategy, StrategyModel};
use crate::stabling::{acquired, judged, released};
use crate::pool::Stabling;
use crate::ticket::{FieldText, TicketView};
use crate::tls_passenger::{be16, handshake_fields, sni_fields, sni_host, tls_decode_step, version_name};
use crate::connection::{FailureKind, Phase};
use vstd::utf8::{decode_utf8, valid_utf8};

verus! {

/// A call of the HTTP decoder takes bytes only off the front of the buffer: what is
/// left is a suffix of what was there, nothing is taken when nothing is handed out,
/// and a line handed on untouched is exactly the bytes taken.
pub proof fn law_http_decode_takes_a_prefix(past: bool, seen: bool, src: Seq<u8>, admitted: bool)
    ensures
        ({
            let (item, rest, _, _) = http_decode_step(past, seen, src, admitted);
            let taken = src.len() - rest.len();
            &&& 0 <= taken <= src.len()
            &&& rest == src.subrange(taken, src.len() as int)
            &&& item is None ==> taken == 0
            &&& (item matches Some(TicketView::Passthrough(raw)) ==> raw == src.subrange(0, taken))
        }),
{
    lemma_next_index_of_bounds(src, 10u8, 0);
}

/// Once the HTTP decoder has passed the end of the metadata, it hands out nothing
/// and takes nothing, whatever is buffered.
pub proof fn law_http_metadata_end_is_final(seen: bool, src: Seq<u8>, admitted: bool)
    ensures
        http_decode_step(true, seen, src, admitted) == (None::<TicketView>, src, true, seen),
{
}

/// A call of the TLS decoder takes bytes only off the front of the buffer: a whole
/// record or nothing, and a record handed on untouched is exactly the bytes taken.
pub proof fn law_tls_decode_takes_a_prefix(past: bool, src: Seq<u8>, admitted: bool)
    ensures
        ({
            let (item, rest, _) = tls_decode_step(past, src, admitted);
            let taken = src.len() - rest.len();
            &&& 0 <= taken <= src.len()
            &&& rest == src.subrange(taken, src.len() as int)
            &&& item is None ==> taken == 0
            &&& (item matches Some(TicketView::Passthrough(raw)) ==> raw == src.subrange(0, taken))
        }),
{
}

/// Once the TLS decoder has met a record that is not a handshake, it hands out
/// nothing and takes nothing, whatever is buffered.
pub proof fn law_tls_metadata_end_is_final(src: Seq<u8>, admitted: bool)
    ensures
        tls_decode_step(true, src, admitted) == (None::<TicketView>, src, true),
{
}

/// The fields of every handshake record start with its record version.
pub proof fn law_handshake_fields_start_with_record_version(payload: Seq<u8>, record_version: u16)
    ensures
        handshake_fields(payload, record_version).len() >= 1,
        handshake_fields(payload, record_version)[0] == FieldText::KeyValue(
            "record_version"@,
            version_name(record_version),
        ),
{
}

/// A request line with a method, a path and a version (at least two spaces) is
/// reported exactly as it reads.
pub proof fn law_request_line_reported_as_read(c: Seq<char>)
    requires
        next_index_of(c, ' ', 0) < c.len(),
        next_index_of(c, ' ', next_index_of(c, ' ', 0) + 1) < c.len(),
    ensures
        request_line_text(c) == c,
{
    let i = next_index_of(c, ' ', 0);
    lemma_next_index_of_bounds(c, ' ', 0);
    let j = next_index_of(c, ' ', i + 1);
    lemma_next_index_of_bounds(c, ' ', i + 1);
    assert(c.subrange(0, i) + " "@ + c.subrange(i + 1, j) + " "@ + c.subrange(j + 1, c.len() as int)
        =~= c) by {
        reveal_strlit(" ");
    }
}

/// A domain that matches a pattern exactly also matches it as a prefix, as a
/// suffix, and as a contained part.
pub proof fn law_exact_match_implies_the_others(p: Seq<u8>, domain: Seq<u8>)
    requires
        strategy_matches(StrategyModel::Exact(p), domain),
    ensures
        strategy_matches(StrategyModel::Prefix(p), domain),
        strategy_matches(StrategyModel::Suffix(p), domain),
        strategy_matches(StrategyModel::Contains(p), domain),
{
    assert(domain.subrange(0, domain.len() as int) == domain);
    assert(crate::route::occurs_at(domain, p, 0));
}

/// Patterns are kept in lower case: lowering them again changes nothing, and no
/// ASCII capital letter is left in them.
pub proof fn law_patterns_are_lower_case(text: Seq<u8>)
    ensures
        ascii_lowercase(ascii_lowercase(text)) == ascii_lowercase(text),
        forall|i: int|
            0 <= i < text.len() ==> !(65 <= #[trigger] ascii_lowercase(text)[i] <= 90),
{
    assert(ascii_lowercase(ascii_lowercase(text)) =~= ascii_lowercase(text));
}

/// Adding a route never changes where a key that already matched is routed; a key
/// that matched nothing goes to the new route when it matches that one.
pub proof fn law_added_route_comes_last<F>(
    routes: Seq<(MatchStrategy, F)>,
    strategy: MatchStrategy,
    factory: F,
    key: Seq<u8>,
)
    ensures
        first_matching(routes, key, 0) < routes.len() ==> first_matching(
            routes.push((strategy, factory)),
            key,
            0,
        ) == first_matching(routes, key, 0),
        first_matching(routes, key, 0) == routes.len() && strategy_matches(strategy@, key)
            ==> first_matching(routes.push((strategy, factory)), key, 0) == routes.len(),
{
    lemma_first_matching_push(routes, (strategy, factory), key, 0);
}

proof fn lemma_first_matching_push<F>(
    routes: Seq<(MatchStrategy, F)>,
    x: (MatchStrategy, F),
    key: Seq<u8>,
    from: int,
)
    requires
        0 <= from <= routes.len(),
    ensures
        first_matching(routes, key, from) < routes.len() ==> first_matching(routes.push(x), key, from)
            == first_matching(routes, key, from),
        first_matching(routes, key, from) == routes.len() && strategy_matches(x.0@, key)
            ==> first_matching(routes.push(x), key, from) == routes.len(),
    decreases routes.len() - from,
{
    if from < routes.len() {
        assert(routes.push(x)[from] == routes[from]);
        if !strategy_matches(routes[from].0@, key) {
            lemma_first_matching_push(routes, x, key, from + 1);
        }
    } else {
        assert(routes.push(x)[from] == x);
    }
}

proof fn lemma_le_bytes_len(x: nat, n: nat)
    ensures
        le_bytes(x, n).len() == n,
    decreases n,
{
    if n > 0 {
        lemma_le_bytes_len(x / 256, (n - 1) as nat);
    }
}

/// The pcapng header blocks are as long as their length fields say: 28 and 20 bytes.
pub proof fn law_header_blocks_have_their_lengths()
    ensures
        section_header_block().len() == 28,
        interface_description_block().len() == 20,
{
    lemma_le_bytes_len(0x0A0D0D0A, 4);
    lemma_le_bytes_len(28, 4);
    lemma_le_bytes_len(0x1A2B3C4D, 4);
    lemma_le_bytes_len(1, 2);
    lemma_le_bytes_len(0, 2);
    lemma_le_bytes_len(0xFFFF_FFFF_FFFF_FFFF, 8);
    lemma_le_bytes_len(1, 4);
    lemma_le_bytes_len(20, 4);
    lemma_le_bytes_len(147, 2);
    lemma_le_bytes_len(0, 4);
}

/// An Enhanced Packet Block is as long as its total length field says (a multiple
/// of four), that field standing both first after the block type and last.
pub proof fn law_packet_block_has_its_length(
    interface_id: u32,
    timestamp_us: u64,
    data: Seq<u8>,
    direction: Seq<u8>,
    connection_id: u64,
)
    ensures
        ({
            let block = enhanced_packet_block(
                interface_id,
                timestamp_us,
                data,
                direction,
                connection_id,
            );
            let total = packet_block_len(data.len(), packet_comment(direction, connection_id).len());
            &&& block.len() == total
            &&& total % 4 == 0
            &&& block.subrange(4, 8) == le_bytes(total, 4)
            &&& block.subrange(block.len() - 4, block.len() as int) == le_bytes(total, 4)
        }),
{
    let comment = packet_comment(direction, connection_id);
    let total = packet_block_len(data.len(), comment.len());
    let head = packet_block_head(total, interface_id, timestamp_us, data.len());
    let tail = packet_block_tail(comment, total);
    let z = zeros(pad_to_four(data.len()));
    assert(head.len() == 28) by {
        lemma_le_bytes_len(6, 4);
        lemma_le_bytes_len(total, 4);
        lemma_le_bytes_len(interface_id as nat, 4);
        lemma_le_bytes_len(timestamp_us as nat / 0x1_0000_0000, 4);
        lemma_le_bytes_len(timestamp_us as nat % 0x1_0000_0000, 4);
        lemma_le_bytes_len(data.len(), 4);
    }
    assert(tail.len() == 12 + comment.len() + pad_to_four(comment.len())) by {
        lemma_le_bytes_len(1, 2);
        lemma_le_bytes_len(comment.len(), 2);
        lemma_le_bytes_len(0, 2);
        lemma_le_bytes_len(total, 4);
    }
    crate::capture::lemma_enhanced_packet_block_parts(
        interface_id,
        timestamp_us,
        data,
        direction,
        connection_id,
    );
    let block = enhanced_packet_block(interface_id, timestamp_us, data, direction, connection_id);
    assert(block == head + data + z + tail);
    assert(block.len() == total);
    assert((data.len() + pad_to_four(data.len())) % 4 == 0);
    assert((comment.len() + pad_to_four(comment.len())) % 4 == 0);
    assert(head.subrange(4, 8) =~= le_bytes(total, 4)) by {
        lemma_le_bytes_len(6, 4);
        lemma_le_bytes_len(total, 4);
    }
    assert(block.subrange(4, 8) =~= head.subrange(4, 8));
    assert(tail.subrange(tail.len() - 4, tail.len() as int) =~= le_bytes(total, 4)) by {
        lemma_le_bytes_len(total, 4);
    }
    assert(block.subrange(block.len() - 4, block.len() as int) =~= tail.subrange(
        tail.len() - 4,
        tail.len() as int,
    ));
}

/// Before the route is known, bytes are only buffered within the pre-route budget,
/// and every request byte is counted as frame bytes or passed-through bytes.
pub proof fn law_pre_route_buffering_within_budget(
    c: RequestCycle,
    event: RequestEvent,
    limits: BufferLimits,
)
    requires
        c.request_bytes == c.passthrough_bytes + c.frame_bytes,
        crate::connection::event_fits(c, event),
    ensures
        ({
            let (next, action) = pre_route_outcome(c, event, limits);
            &&& (action == PreRouteAction::Buffer || action == PreRouteAction::Route)
                ==> next.pre_route_bytes <= limits.max_pre_route_bytes
            &&& next.request_bytes == next.passthrough_bytes + next.frame_bytes
        }),
{
}

/// While the route is set up, bytes are only buffered within the post-route
/// budget, and every request byte is counted as frame bytes or passed-through
/// bytes.
pub proof fn law_post_route_buffering_within_budget(
    c: RequestCycle,
    event: RequestEvent,
    limits: BufferLimits,
)
    requires
        c.request_bytes == c.passthrough_bytes + c.frame_bytes,
        crate::connection::event_fits(c, event),
    ensures
        ({
            let (next, action) = post_route_outcome(c, event, limits);
            &&& action == PostRouteAction::Buffer ==> next.post_route_bytes
                <= limits.max_post_route_bytes
            &&& next.request_bytes == next.passthrough_bytes + next.frame_bytes
        }),
{
}

/// A session's findings stick: a matcher that has found something keeps it, a
/// conflict once recorded stays, and frames of another phase change nothing.
pub proof fn law_findings_stick<M: MatchAtom>(
    s: SessionModel<M>,
    phase: M::Phase,
    data: Seq<u8>,
    i: int,
)
    requires
        0 <= i < s.matchers.len(),
        s.results.len() == s.matchers.len(),
        s.conflicts.len() == s.matchers.len(),
    ensures
        s.results[i] is Some ==> fed(s, phase, data).results[i] == s.results[i],
        s.conflicts[i] ==> fed(s, phase, data).conflicts[i],
        !s.matchers[i].spec_phase().eq_spec(&phase) ==> fed(s, phase, data).results[i] == s.results[i]
            && fed(s, phase, data).conflicts[i] == s.conflicts[i],
        fed(s, phase, data).matchers == s.matchers,
{
}

/// A connection just parked is the one taken next, when the freshness test
/// accepts it.
pub proof fn law_parked_connection_is_taken_next<C, P: Fn(&C) -> bool>(
    before: Seq<C>,
    conn: C,
    max_idle_per_host: usize,
    fresh: P,
    after: Seq<C>,
    r: Option<C>,
)
    requires
        judged(fresh, conn, true),
        !judged(fresh, conn, false),
        acquired(released(before, conn, max_idle_per_host), after, r, fresh),
    ensures
        r == Some(conn),
        after == released(before, conn, max_idle_per_host).drop_last(),
{
    let q = released(before, conn, max_idle_per_host);
    assert(q.last() == conn);
    match r {
        Some(c) => {
            let k = choose|k: int|
                0 <= k < q.len() && #[trigger] q[k] == c && after == q.take(k) && judged(
                    fresh,
                    c,
                    true,
                ) && forall|j: int| k < j < q.len() ==> judged(fresh, #[trigger] q[j], false);
            if k < q.len() - 1 {
                assert(judged(fresh, q[q.len() - 1], false));
            }
            assert(after =~= q.drop_last());
        },
        None => {
            assert(judged(fresh, q[q.len() - 1], false));
        },
    }
}

/// Parking never lets a host's queue grow past its bound.
pub proof fn law_parking_respects_the_bound<C>(before: Seq<C>, conn: C, max_idle_per_host: usize)
    requires
        max_idle_per_host >= 1,
        before.len() <= max_idle_per_host,
    ensures
        released(before, conn, max_idle_per_host).len() <= max_idle_per_host,
{
}

/// Once a header stream's decoder has finished (or the headers were already done),
/// the stream hands out what its read buffer holds as passthrough, if anything, and
/// ends; at the next poll it ends again, whatever the decoder would report. No
/// decoded frame comes after the end of the headers.
pub proof fn law_header_stream_end_is_final(
    done: bool,
    p: DecoderPoll,
    q: DecoderPoll,
    buffer: Seq<u8>,
)
    requires
        done || p == DecoderPoll::Finished,
    ensures
        ({
            let (a1, h1, d1, b1) = header_stream_after(done, p, buffer);
            let (a2, h2, d2, b2) = header_stream_after(d1, q, b1);
            &&& d1 && d2
            &&& buffer.len() > 0 ==> a1 == HeaderStreamAction::Leftover && h1 == Some(buffer)
            &&& buffer.len() == 0 ==> a1 == HeaderStreamAction::End && h1 is None
            &&& a2 == HeaderStreamAction::End && h2 is None && b2 == Seq::<u8>::empty()
        }),
{
}

/// A session that has seen no frame has found nothing for any formula and met no
/// conflict: each of the formula's matchers reads `None`.
pub proof fn law_fresh_session_finds_nothing<M: MatchAtom>(matchers: Seq<M>, wanted: Seq<M>)
    ensures
        ({
            let kept = first_occurrences(matchers);
            let s = SessionModel {
                matchers: kept,
                results: Seq::new(kept.len(), |i: int| None::<Seq<u8>>),
                conflicts: Seq::new(kept.len(), |i: int| false),
            };
            &&& formula_results(s, wanted) == Seq::new(wanted.len(), |i: int| None::<Seq<u8>>)
            &&& !formula_conflicts(s, wanted)
        }),
{
    let kept = first_occurrences(matchers);
    let s = SessionModel {
        matchers: kept,
        results: Seq::new(kept.len(), |i: int| None::<Seq<u8>>),
        conflicts: Seq::new(kept.len(), |i: int| false),
    };
    assert forall|k: int| 0 <= k < wanted.len() implies result_of(s, wanted[k]) is None
        && !conflicted_in(s, #[trigger] wanted[k]) by {
        lemma_position_from_bounds(kept, wanted[k], 0);
    }
    assert(formula_results(s, wanted) =~= Seq::new(wanted.len(), |i: int| None::<Seq<u8>>));
}

/// Through the keyed pool: a connection just parked under a key is the one that key
/// hands out next, when the freshness test accepts it, and the pool then holds one
/// connection fewer. (`parked` is the pool after the release, `taken` after the
/// acquire, as their contracts relate them.)
pub proof fn law_pooled_connection_is_taken_next<C, P: Fn(&C) -> bool>(
    before: Seq<C>,
    parked: Stabling<C>,
    taken: Stabling<C>,
    key: Seq<u8>,
    conn: C,
    fresh: P,
    r: Option<C>,
)
    requires
        judged(fresh, conn, true),
        !judged(fresh, conn, false),
        parked.queue(key) == released(before, conn, parked.config().max_idle_per_host),
        acquired(parked.queue(key), taken.queue(key), r, fresh),
        taken.idle() + parked.queue(key).len() == parked.idle() + taken.queue(key).len(),
    ensures
        r == Some(conn),
        taken.idle() + 1 == parked.idle(),
{
    law_parked_connection_is_taken_next(before, conn, parked.config().max_idle_per_host, fresh, taken.queue(key), r);
}

/// A parser failure while the route is being set up ends the reading, whatever the
/// budgets and the bytes read so far, and counts nothing.
pub proof fn law_parser_failure_stops_post_route(c: RequestCycle, kind: FailureKind, limits: BufferLimits)
    ensures
        post_route_outcome(c, RequestEvent::Failed { kind }, limits).1 == PostRouteAction::Stop,
        post_route_outcome(c, RequestEvent::Failed { kind }, limits).0 == c,
{
}

/// Before the route is known, a parser failure never lets the reading go on: the
/// connection fails with the failure's own kind in the parse phase, or, for a
/// client that closed after an earlier request, ends quietly. Nothing is counted.
pub proof fn law_parser_failure_ends_pre_route(c: RequestCycle, kind: FailureKind, limits: BufferLimits)
    ensures
        ({
            let (next, a) = pre_route_outcome(c, RequestEvent::Failed { kind }, limits);
            &&& next == c
            &&& a != PreRouteAction::Buffer && a != PreRouteAction::Route
            &&& a == PreRouteAction::ClientClosed ==> !c.first_cycle && kind == FailureKind::ConnectionClosed
            &&& a != PreRouteAction::ClientClosed ==> a == PreRouteAction::Fail(kind, Phase::Parse)
        }),
{
}

/// An extension entry that is not server_name gives no SNI field and does not stop
/// the walk: the fields over the list are those over the entries after it.
pub proof fn law_other_extensions_are_skipped(hello: Seq<u8>, at: int, end: int)
    requires
        at + 4 <= end,
        be16(hello, at) != 0,
        at + 4 + be16(hello, at + 2) <= end,
    ensures
        sni_fields(hello, at, end) == sni_fields(hello, at + 4 + be16(hello, at + 2), end),
{
    assert(Seq::<FieldText>::empty() + sni_fields(hello, at + 4 + be16(hello, at + 2), end)
        =~= sni_fields(hello, at + 4 + be16(hello, at + 2), end));
}

/// A server_name entry holding a host name reports exactly that name, then whatever
/// the entries after it report.
pub proof fn law_server_name_is_reported(hello: Seq<u8>, at: int, end: int, name: Seq<char>)
    requires
        at + 4 <= end,
        be16(hello, at) == 0,
        be16(hello, at + 2) > 0,
        at + 4 + be16(hello, at + 2) <= end,
        sni_host(hello.subrange(at + 4, at + 4 + be16(hello, at + 2))) == Some(name),
    ensures
        sni_fields(hello, at, end) == seq![FieldText::Header("sni"@, name)] + sni_fields(
            hello,
            at + 4 + be16(hello, at + 2),
            end,
        ),
{
}

/// The host name of a server_name body is the text of the name bytes that follow
/// its list length, a host_name entry type (zero) and the name's length.
pub proof fn law_sni_host_reads_the_name(data: Seq<u8>, name: Seq<u8>)
    requires
        data.len() == 5 + name.len(),
        data[2] == 0,
        be16(data, 3) == name.len(),
        data.subrange(5, data.len() as int) == name,
        valid_utf8(name),
    ensures
        sni_host(data) == Some(decode_utf8(name)),
{
}

/// The HTTP decoder hands out the boundary only for an empty line at the front of
/// the buffer (`"\n"` or `"\r\n"`), takes just that line, and ends the metadata:
/// the next call hands out nothing and takes nothing.
pub proof fn law_boundary_ends_the_metadata(past: bool, seen: bool, s: Seq<u8>, a: bool, b: bool)
    ensures
        ({
            let (o1, r1, p1, s1) = http_decode_step(past, seen, s, a);
            o1 == Some(TicketView::Boundary) ==> {
                &&& !past && p1 && s1 == seen
                &&& (s.len() >= 1 && s[0] == 10 && r1 == s.subrange(1, s.len() as int)) || (s.len()
                    >= 2 && s[0] == 13 && s[1] == 10 && r1 == s.subrange(2, s.len() as int))
                &&& http_decode_step(p1, s1, r1, b) == (None::<TicketView>, r1, p1, s1)
            }
        }),
{
    lemma_next_index_of_bounds(s, 10u8, 0);
    let pos = next_index_of(s, 10u8, 0);
    if !past && pos < s.len() {
        let raw = s.subrange(0, pos + 1);
        assert(raw.last() == 10);
        assert(raw.drop_last() =~= s.subrange(0, pos));
        if pos >= 2 {
            assert(s.subrange(0, pos).drop_last().len() > 0);
        }
    }
}

/// A frame the matcher does not match changes nothing for that matcher: no result
/// appears and no conflict is recorded.
pub proof fn law_unmatched_frame_changes_nothing<M: MatchAtom>(
    s: SessionModel<M>,
    phase: M::Phase,
    data: Seq<u8>,
    i: int,
)
    requires
        0 <= i < s.matchers.len(),
        s.results.len() == s.matchers.len(),
        s.conflicts.len() == s.matchers.len(),
        s.matchers[i].spec_match(data) is None,
    ensures
        fed(s, phase, data).results[i] == s.results[i],
        fed(s, phase, data).conflicts[i] == s.conflicts[i],
{
}

/// A conflict is newly recorded only when a matcher that already found a value now
/// matches a frame of its phase with a different value; and then it is recorded.
pub proof fn law_conflict_needs_a_different_match<M: MatchAtom>(
    s: SessionModel<M>,
    phase: M::Phase,
    data: Seq<u8>,
    i: int,
)
    requires
        0 <= i < s.matchers.len(),
        s.results.len() == s.matchers.len(),
        s.conflicts.len() == s.matchers.len(),
        !s.conflicts[i],
    ensures
        fed(s, phase, data).conflicts[i] <==> (s.matchers[i].spec_phase().eq_spec(&phase)
            && s.results[i] is Some && s.matchers[i].spec_match(data) is Some
            && s.matchers[i].spec_match(data) != s.results[i]),
{
}

/// A prefix pattern accepts a domain exactly when the domain is at least as long and
/// agrees with the pattern at every one of its positions.
pub proof fn law_prefix_compares_every_byte(p: Seq<u8>, d: Seq<u8>)
    ensures
        strategy_matches(StrategyModel::Prefix(p), d) <==> (d.len() >= p.len() && forall|i: int|
            0 <= i < p.len() ==> d[i] == p[i]),
{
    if d.len() >= p.len() && (forall|i: int| 0 <= i < p.len() ==> d[i] == p[i]) {
        assert(d.subrange(0, p.len() as int) =~= p);
    }
    if strategy_matches(StrategyModel::Prefix(p), d) {
        assert forall|i: int| 0 <= i < p.len() implies d[i] == p[i] by {
            assert(d.subrange(0, p.len() as int)[i] == d[i]);
        }
    }
}

/// A suffix pattern accepts a domain exactly when the domain is at least as long and
/// its last bytes agree with the pattern at every position.
pub proof fn law_suffix_compares_every_byte(p: Seq<u8>, d: Seq<u8>)
    ensures
        strategy_matches(StrategyModel::Suffix(p), d) <==> (d.len() >= p.len() && forall|i: int|
            0 <= i < p.len() ==> d[d.len() - p.len() + i] == p[i]),
{
    if d.len() >= p.len() && (forall|i: int| 0 <= i < p.len() ==> d[d.len() - p.len() + i] == p[i]) {
        assert(d.subrange(d.len() - p.len(), d.len() as int) =~= p);
    }
    if strategy_matches(StrategyModel::Suffix(p), d) {
        assert forall|i: int| 0 <= i < p.len() implies d[d.len() - p.len() + i] == p[i] by {
            assert(d.subrange(d.len() - p.len(), d.len() as int)[i] == d[d.len() - p.len() + i]);
        }
    }
}

/// An exact pattern accepts a domain exactly when both have the same length and
/// agree at every position.
pub proof fn law_exact_compares_every_byte(p: Seq<u8>, d: Seq<u8>)
    ensures
        strategy_matches(StrategyModel::Exact(p), d) <==> (d.len() == p.len() && forall|i: int|
            0 <= i < p.len() ==> d[i] == p[i]),
{
    if d.len() == p.len() && (forall|i: int| 0 <= i < p.len() ==> d[i] == p[i]) {
        assert(d =~= p);
    }
}

/// The pattern's bytes stand in the domain, next to each other, from position `j`.
pub open spec fn bytes_agree_at(d: Seq<u8>, p: Seq<u8>, j: int) -> bool {
    0 <= j && j + p.len() <= d.len() && forall|i: int| 0 <= i < p.len() ==> #[trigger] d[j + i] == p[i]
}

/// A contained pattern accepts a domain exactly when the pattern's bytes appear, in
/// order and next to each other, at some position of the domain.
pub proof fn law_contains_compares_every_byte(p: Seq<u8>, d: Seq<u8>)
    ensures
        strategy_matches(StrategyModel::Contains(p), d) <==> exists|j: int| #[trigger] bytes_agree_at(d, p, j),
{
    if exists|j: int| #[trigger] bytes_agree_at(d, p, j) {
        let j = choose|j: int| #[trigger] bytes_agree_at(d, p, j);
        assert forall|i: int| 0 <= i < p.len() implies d.subrange(j, j + p.len())[i] == p[i] by {
            assert(d[j + i] == p[i]);
        }
        assert(d.subrange(j, j + p.len()) =~= p);
        assert(crate::route::occurs_at(d, p, j));
    }
    if strategy_matches(StrategyModel::Contains(p), d) {
        let j = choose|j: int| #[trigger] crate::route::occurs_at(d, p, j);
        assert forall|i: int| 0 <= i < p.len() implies #[trigger] d[j + i] == p[i] by {
            assert(d.subrange(j, j + p.len())[i] == d[j + i]);
        }
        assert(bytes_agree_at(d, p, j));
    }
}

/// Before the route is known, a frame with a routing key that fits the budget ends
/// the reading to route by it; passed-through bytes never do, and no event routes
/// over budget.
pub proof fn law_routing_frame_routes(c: RequestCycle, len: usize, routing: bool, limits: BufferLimits)
    requires
        c.has_room(len),
    ensures
        c.pre_route_bytes + len <= limits.max_pre_route_bytes ==> (pre_route_outcome(
            c,
            RequestEvent::Frame { len, routing },
            limits,
        ).1 == PreRouteAction::Route <==> routing),
        pre_route_outcome(c, RequestEvent::Passthrough { len }, limits).1 != PreRouteAction::Route,
        c.pre_route_bytes + len > limits.max_pre_route_bytes ==> pre_route_outcome(
            c,
            RequestEvent::Frame { len, routing },
            limits,
        ).1 == PreRouteAction::Fail(FailureKind::BufferLimitExceeded, Phase::Parse),
{
}

/// The first non-empty line of a request is reported as its request line, whatever
/// the predicate says, and after it the request line counts as seen.
pub proof fn law_first_line_is_the_request_line(s: Seq<u8>, a: bool)
    ensures
        ({
            let (o, r, p, seen) = http_decode_step(false, false, s, a);
            (o matches Some(TicketView::Buffered(f)) ==> f is Attribute && seen && !p)
            && (o matches Some(TicketView::Passthrough(_)) ==> false)
        }),
{
}

} // verus!
