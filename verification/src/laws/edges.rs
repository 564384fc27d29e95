//! What the listener, the version, the samples of memory, the classes of contracts and the
//! identifiers of tokens tell.
use vstd::prelude::*;
use vstd::string::*;
use crate::abi::{
    class_at, class_next, entry_at, entry_functions, entrypoint_name, functions_in, kept_of, known,
    legacy_at, legacy_is, AbiEntry, BlockRef, ClassAbi, ClassAction, ClassEvent, ClassStage,
    EntryPoint, KnownClass, LegacyEntry, ReadClass,
};
use crate::digits::{
    digits_are_plain, digits_of, digits_write_value, is_digit, value_of_padded, zero_padded,
};
use crate::felt::{prime, Felt};
use crate::ids::{hex_field, hex_field_reads_back, without_0x};
use crate::memory::{line_of, resident_pages, stats_from, words, words_and_rest, MemoryLine};
use crate::server::proxy::{
    allowed_headers, asks_websocket, cors_allows, exposed_headers, keepalive_of, key_chosen,
    listen_next, CorsPlan, ListenAction, ListenEvent, Origins, ProxySettings,
};
use crate::text::{
    has_prefix, has_substring, is_white_space, split, split_append, split_single, views,
};
use crate::tokens::{from_be_hex, token_parsed};
use crate::version::{release_of, version_told};

verus! {

// ---------------------------------------------------------------------------
// The listener
// ---------------------------------------------------------------------------
/// Each kind of keep-alive has the seconds of its own setting, where zero switches it off; without
/// pings there is no waiting for their answers.
pub proof fn connections_are_kept_alive_as_set(s: ProxySettings)
    ensures
        s.tcp_keepalive_interval == 0 ==> keepalive_of(s).tcp is None,
        s.tcp_keepalive_interval > 0 ==> keepalive_of(s).tcp == Some(s.tcp_keepalive_interval),
        s.http2_keepalive_interval == 0 ==> keepalive_of(s).http2_interval is None && keepalive_of(
            s,
        ).http2_timeout is None,
        s.http2_keepalive_interval > 0 ==> keepalive_of(s).http2_interval == Some(
            s.http2_keepalive_interval,
        ),
        s.http2_keepalive_interval > 0 && s.http2_keepalive_timeout > 0 ==> keepalive_of(
            s,
        ).http2_timeout == Some(s.http2_keepalive_timeout),
        s.http2_keepalive_timeout == 0 ==> keepalive_of(s).http2_timeout is None,
{
}

/// A WebSocket is asked for by an upgrade to one on a connection that is to be upgraded; one
/// without the other asks for nothing.
pub proof fn websockets_are_asked_for_by_both_headers(
    upgrade: Option<Seq<char>>,
    connection: Option<Seq<char>>,
)
    ensures
        asks_websocket(upgrade, connection) <==> {
            &&& upgrade matches Some(u) && u == "websocket"@
            &&& connection matches Some(c) && has_substring(c, "upgrade"@)
        },
        !asks_websocket(upgrade, None),
        !asks_websocket(None, connection),
{
}

/// A single star lets every origin read, any other list the origins that it holds; for a day, by
/// the two methods.
pub proof fn listed_origins_may_read(list: Seq<String>, p: CorsPlan)
    requires
        cors_allows(list, p),
    ensures
        list.len() == 1 && list[0]@ == "*"@ <==> p.origins is Mirror,
        p.origins matches Origins::List(v) ==> v@.len() == list.len() && forall|i: int|
            0 <= i < list.len() ==> (#[trigger] v@[i])@ == list[i]@,
        p.max_age_secs == 24 * 60 * 60,
        p.allow_methods@.len() == 2,
        p.allow_methods@[0]@ == "GET"@,
        p.allow_methods@[1]@ == "POST"@,
{
    let m = seq!["GET"@, "POST"@];
    assert(m.len() == 2 && m[0] == "GET"@ && m[1] == "POST"@);
    assert(p.allow_methods@.len() == 2);
    if let Origins::List(v) = p.origins {
        assert(views(v@).len() == views(list).len());
        assert forall|i: int| 0 <= i < list.len() implies (#[trigger] v@[i])@ == list[i]@ by {
            assert(views(v@)[i] == v@[i]@);
            assert(views(list)[i] == list[i]@);
        }
    }
}

/// A connection is served at once without TLS and after its handshake with it; one whose handshake
/// failed is dropped, and the listener goes on.
pub proof fn connections_are_served_after_their_handshake(
    tls: bool,
    s: ProxySettings,
    event: ListenEvent,
)
    ensures
        listen_next(tls, s, event) is Serve <==> (event == ListenEvent::Accepted && !tls) || event
            == (ListenEvent::Handshake { ok: true }),
        listen_next(tls, s, event) is Handshake <==> event == ListenEvent::Accepted && tls,
        listen_next(tls, s, event) == ListenAction::Drop <==> event == (ListenEvent::Handshake {
            ok: false,
        }),
        listen_next(tls, s, event) == ListenAction::Warn <==> event == ListenEvent::AcceptFailed,
        listen_next(tls, s, event) matches ListenAction::Handshake { probe_secs } ==> probe_secs
            == keepalive_of(s).tcp,
{
}

/// The key is the first that is read in the newer form, or else the first in the older one.
pub proof fn the_first_key_is_taken(pkcs8: Seq<Seq<u8>>, rsa: Seq<Seq<u8>>)
    ensures
        pkcs8.len() > 0 ==> key_chosen(pkcs8, rsa) == Some(pkcs8[0]),
        pkcs8.len() == 0 && rsa.len() > 0 ==> key_chosen(pkcs8, rsa) == Some(rsa[0]),
        pkcs8.len() == 0 && rsa.len() == 0 <==> key_chosen(pkcs8, rsa) is None,
{
}

// ---------------------------------------------------------------------------
// Version and memory
// ---------------------------------------------------------------------------
/// The version of a tag is what stands after its prefix; other tags and none are unreleased.
pub proof fn tags_tell_their_version(tag: Seq<char>, v: Seq<char>)
    ensures
        release_of(Some("uw-v"@ + v)) == v,
        !has_prefix(tag, "uw-v"@) ==> release_of(Some(tag)) == "unreleased"@,
        release_of(None) == "unreleased"@,
{
    reveal_strlit("uw-v");
    let t = "uw-v"@ + v;
    assert(t.take(4) =~= "uw-v"@);
    assert(t.skip(4) =~= v);
}

/// The version that is told begins with that of the release, where it is given, and ends with the
/// version that the program is built on and the commit.
pub proof fn releases_stand_before_tags(
    release: Seq<char>,
    tag: Option<Seq<char>>,
    base: Seq<char>,
    commit: Seq<char>,
)
    ensures
        version_told(Some(release), tag, base, Some(commit)) == release + "-uw (base torii v"@ + base
            + ", "@ + commit + ")"@,
        version_told(Some(release), tag, base, None) == release + "-uw (base torii v"@ + base
            + ", "@ + "unknown"@ + ")"@,
        version_told(None, tag, base, Some(commit)) == release_of(tag) + "-uw (base torii v"@ + base
            + ", "@ + commit + ")"@,
{
}

/// The numbers of the allocator are told in their order.
pub proof fn samples_hold_their_numbers(n: [u64; 6])
    ensures
        stats_from(Some(n)) matches Some(s) && s.allocated == n@[0] && s.active == n@[1] && s.resident
            == n@[2] && s.mapped == n@[3] && s.retained == n@[4] && s.metadata == n@[5],
        stats_from(None) is None,
{
}

/// Words around one space are told one after the other.
pub proof fn spaces_part_words(a: Seq<char>, b: Seq<char>)
    requires
        a.len() > 0,
        b.len() > 0,
        forall|i: int| 0 <= i < a.len() ==> !is_white_space(#[trigger] a[i]),
        forall|i: int| 0 <= i < b.len() ==> !is_white_space(#[trigger] b[i]),
    ensures
        words(a + seq![' '] + b) == seq![a, b],
{
    assert(is_white_space(' '));
    one_word(a);
    let head = a + seq![' '];
    assert(head.drop_last() =~= a);
    assert(words_and_rest(head) == (seq![a], Seq::<char>::empty())) by {
        assert(Seq::<Seq<char>>::empty().push(a) =~= seq![a]);
    }
    word_after(head, seq![a], b);
    assert(seq![a].push(b) =~= seq![a, b]);
}

/// A text without white space is one unfinished word.
proof fn one_word(a: Seq<char>)
    requires
        forall|i: int| 0 <= i < a.len() ==> !is_white_space(#[trigger] a[i]),
    ensures
        words_and_rest(a) == (Seq::<Seq<char>>::empty(), a),
    decreases a.len(),
{
    if a.len() > 0 {
        let t = a.drop_last();
        assert forall|i: int| 0 <= i < t.len() implies !is_white_space(#[trigger] t[i]) by {
            assert(t[i] == a[i]);
        }
        one_word(t);
        assert(!is_white_space(a[a.len() - 1]));
        assert(t.push(a.last()) =~= a);
    } else {
        assert(a =~= Seq::<char>::empty());
    }
}

/// A text without white space after finished words is an unfinished word after them.
proof fn word_after(head: Seq<char>, done: Seq<Seq<char>>, b: Seq<char>)
    requires
        words_and_rest(head) == (done, Seq::<char>::empty()),
        forall|i: int| 0 <= i < b.len() ==> !is_white_space(#[trigger] b[i]),
    ensures
        words_and_rest(head + b) == (done, b),
    decreases b.len(),
{
    if b.len() > 0 {
        let t = b.drop_last();
        assert forall|i: int| 0 <= i < t.len() implies !is_white_space(#[trigger] t[i]) by {
            assert(t[i] == b[i]);
        }
        word_after(head, done, t);
        assert((head + b).drop_last() =~= head + t);
        assert((head + b).last() == b[b.len() - 1]);
        assert(!is_white_space(b[b.len() - 1]));
        assert(t.push(b.last()) =~= b);
    } else {
        assert(head + b =~= head);
        assert(b =~= Seq::<char>::empty());
    }
}

/// Without the allocator the kernel is told of every twentieth tick, where it tells anything; with
/// the allocator the kernel is never told of.
pub proof fn the_kernel_stands_in_for_the_allocator(tick: u32, stats: bool, resident: bool)
    ensures
        line_of(tick, stats, resident) == MemoryLine::Resident <==> !stats && resident && tick % 20
            == 0,
        line_of(tick, stats, resident) == MemoryLine::Summary <==> stats && tick % 20 == 0,
        line_of(tick, stats, resident) == MemoryLine::Brief <==> stats && tick % 20 != 0,
{
}

// ---------------------------------------------------------------------------
// Classes of contracts
// ---------------------------------------------------------------------------
/// A selector leads to the function of its first entry point.
pub proof fn selectors_lead_to_their_first_entry(e: Seq<EntryPoint>, selector: Felt, i: int)
    requires
        0 <= i < e.len(),
        e[i].selector == selector,
        forall|j: int| 0 <= j < i ==> (#[trigger] e[j]).selector != selector,
    ensures
        entry_at(e, selector) == Some(e[i].function_idx),
    decreases e.len(),
{
    let t = e.drop_last();
    assert forall|j: int| 0 <= j < i implies (#[trigger] t[j]).selector != selector by {
        assert(t[j] == e[j]);
    }
    if i == e.len() - 1 {
        unknown_selectors_lead_nowhere(t, selector);
    } else {
        assert(t[i] == e[i]);
        selectors_lead_to_their_first_entry(t, selector, i);
    }
}

/// A selector without an entry point leads nowhere.
pub proof fn unknown_selectors_lead_nowhere(e: Seq<EntryPoint>, selector: Felt)
    requires
        forall|j: int| 0 <= j < e.len() ==> (#[trigger] e[j]).selector != selector,
    ensures
        entry_at(e, selector) is None,
    decreases e.len(),
{
    if e.len() > 0 {
        let t = e.drop_last();
        assert forall|j: int| 0 <= j < t.len() implies (#[trigger] t[j]).selector != selector by {
            assert(t[j] == e[j]);
        }
        unknown_selectors_lead_nowhere(t, selector);
        assert(e[e.len() - 1].selector != selector);
    }
}

/// An entry point has the name that stands at its place among the functions of the class, or none
/// where there is no such place.
pub proof fn entry_points_are_named_by_place(
    entry_points: Vec<EntryPoint>,
    functions: Vec<String>,
    selector: Felt,
    i: int,
)
    requires
        0 <= i < entry_points@.len(),
        entry_points@[i].selector == selector,
        forall|j: int| 0 <= j < i ==> (#[trigger] entry_points@[j]).selector != selector,
    ensures
        ({
            let n = entry_points@[i].function_idx as int;
            let name = entrypoint_name(ClassAbi::Sierra { entry_points, functions }, selector);
            if n < functions@.len() {
                name == Some(functions@[n]@)
            } else {
                name is None
            }
        }),
{
    selectors_lead_to_their_first_entry(entry_points@, selector, i);
}

/// An older class names a selector after the first of its functions of that selector.
pub proof fn older_classes_name_by_selector(e: Seq<LegacyEntry>, selector: Felt, i: int)
    requires
        0 <= i < e.len(),
        legacy_is(e[i], selector),
        forall|j: int| 0 <= j < i ==> !legacy_is(#[trigger] e[j], selector),
    ensures
        e[i] matches LegacyEntry::Function(n) && crate::abi::entry_selector(n@) == selector
            && legacy_at(e, selector) == Some(n@),
    decreases e.len(),
{
    let t = e.drop_last();
    assert forall|j: int| 0 <= j < i implies !legacy_is(#[trigger] t[j], selector) by {
        assert(t[j] == e[j]);
    }
    if i == e.len() - 1 {
        no_older_function(t, selector);
    } else {
        assert(t[i] == e[i]);
        older_classes_name_by_selector(t, selector, i);
    }
}

/// A selector of no function has no name.
proof fn no_older_function(e: Seq<LegacyEntry>, selector: Felt)
    requires
        forall|j: int| 0 <= j < e.len() ==> !legacy_is(#[trigger] e[j], selector),
    ensures
        legacy_at(e, selector) is None,
    decreases e.len(),
{
    if e.len() > 0 {
        let t = e.drop_last();
        assert forall|j: int| 0 <= j < t.len() implies !legacy_is(#[trigger] t[j], selector) by {
            assert(t[j] == e[j]);
        }
        no_older_function(t, selector);
        assert(!legacy_is(e[e.len() - 1], selector));
    }
}

/// Functions, handlers and constructors are told by their names, interfaces by those within them,
/// and other entries not at all.
pub proof fn entries_tell_their_functions(e: AbiEntry)
    ensures
        match e {
            AbiEntry::Function(n) | AbiEntry::L1Handler(n) | AbiEntry::Constructor(n) =>
                entry_functions(e) == seq![n@],
            AbiEntry::Interface(items) => entry_functions(e) == functions_in(items, items@.len()),
            AbiEntry::Other => entry_functions(e).len() == 0,
        },
{
}

/// The functions of the first entries stand before those of the next entry.
pub proof fn functions_keep_the_order_of_their_entries(abi: Vec<AbiEntry>, n: nat)
    requires
        0 < n <= abi@.len(),
    ensures
        functions_in(abi, n) == functions_in(abi, (n - 1) as nat) + entry_functions(abi@[n - 1]),
        functions_in(abi, 0).len() == 0,
{
}

/// Of a class the entry points for calls are kept before those of handlers, and these before the
/// constructor's.
pub proof fn entry_points_are_kept_in_order(
    external: Vec<EntryPoint>,
    l1_handler: Vec<EntryPoint>,
    constructor: Vec<EntryPoint>,
    abi: Vec<AbiEntry>,
    kept: ClassAbi,
    i: int,
)
    requires
        kept_of(ReadClass::Sierra { external, l1_handler, constructor, abi }, kept),
    ensures
        kept matches ClassAbi::Sierra { entry_points, functions } && {
            let (a, b, c) = (external@.len(), l1_handler@.len(), constructor@.len());
            &&& entry_points@.len() == a + b + c
            &&& 0 <= i < a ==> entry_points@[i] == external@[i]
            &&& 0 <= i < b ==> entry_points@[a + i] == l1_handler@[i]
            &&& 0 <= i < c ==> entry_points@[a + b + i] == constructor@[i]
            &&& views(functions@) == functions_in(abi, abi@.len())
        },
{
}

/// The class of a contract is asked for at the block given, by the hash that the provider told for
/// that block; where the block is not there, once more at the block that is not confirmed. A class
/// that is known is not asked for.
pub proof fn classes_are_asked_for_by_block(block: BlockRef, h: Felt, event: ClassEvent)
    ensures
        class_next(true, ClassStage::Begin, ClassEvent::Started { block }) == (
            ClassStage::Done,
            ClassAction::Known,
        ),
        ({
            let first = class_next(false, ClassStage::Begin, ClassEvent::Started { block });
            let hashed = class_next(false, first.0, ClassEvent::Hash(h));
            let again = class_next(false, first.0, ClassEvent::BlockNotFound);
            let hashed_again = class_next(false, again.0, ClassEvent::Hash(h));
            &&& first.1 == (ClassAction::AskHash { block })
            &&& hashed.1 == (ClassAction::AskClass { block })
            &&& class_next(false, hashed.0, ClassEvent::Class).1 == (ClassAction::Keep {
                class_hash: h,
            })
            &&& again.1 == (ClassAction::AskHash { block: BlockRef::PreConfirmed })
            &&& hashed_again.1 == (ClassAction::AskClass { block: BlockRef::PreConfirmed })
            &&& class_next(false, hashed_again.0, ClassEvent::Class).1 == (ClassAction::Keep {
                class_hash: h,
            })
            &&& class_next(false, again.0, ClassEvent::BlockNotFound).1 == ClassAction::Fail
            &&& class_next(false, first.0, ClassEvent::Failed).1 == ClassAction::Fail
            &&& class_next(false, again.0, ClassEvent::Failed).1 == ClassAction::Fail
            &&& class_next(false, hashed.0, ClassEvent::Failed).1 == ClassAction::Fail
            &&& class_next(false, hashed.0, ClassEvent::BlockNotFound).1 == ClassAction::Fail
        }),
        class_next(false, ClassStage::Done, event) == (ClassStage::Done, ClassAction::Ignore),
{
}

// ---------------------------------------------------------------------------
// Identifiers of tokens
// ---------------------------------------------------------------------------
/// The address of a contract, in hexadecimal, is the identifier of its fungible tokens; with the
/// number of a token after it, in 64 digits, it is that of this token.
pub proof fn token_identifiers_read_back(contract: nat, token: nat)
    requires
        contract < prime(),
        digits_of(token, 16).len() <= 64,
    ensures
        token_parsed(hex_field(contract, 0)) == Some((contract, None::<nat>)),
        token_parsed(hex_field(contract, 0) + seq![':'] + hex_field(token, 64)) == Some(
            (contract, Some(token)),
        ),
{
    let a = hex_field(contract, 0);
    let b = hex_field(token, 64);
    hex_field_reads_back(contract, 0);
    split_single(a, ':');
    let d = digits_of(token, 16);
    let k = (64 - d.len()) as nat;
    let p = zero_padded(d, 64);
    digits_write_value(token, 16);
    digits_are_plain(token, 16);
    assert(p =~= Seq::new(k, |i: int| '0') + d);
    value_of_padded(d, k, 16);
    assert forall|i: int| 0 <= i < p.len() implies is_digit(#[trigger] p[i], 16) by {
        if i >= k {
            assert(p[i] == d[i - k]);
        }
    }
    assert(b.take(2) =~= seq!['0', 'x']);
    assert(b.skip(2) =~= p);
    if has_prefix(p, seq!['0', 'x']) {
        assert(p.take(2)[1] == p[1]);
        assert(is_digit(p[1], 16));
        assert(false);
    }
    assert(without_0x(b) == without_0x(p));
    assert(without_0x(p) == p);
    assert(from_be_hex(p) == Some(token));
    assert forall|i: int| 0 <= i < b.len() implies b[i] != ':' by {
        if i >= 2 {
            assert(b[i] == p[i - 2]);
            assert(is_digit(p[i - 2], 16));
        }
    }
    split_append(a, b, ':');
    assert(split(a + seq![':'] + b, ':') =~= seq![a, b]);
}

/// Of an older class all entries are kept as they are, and none where it tells none.
pub proof fn older_classes_are_kept_whole(e: Vec<LegacyEntry>, kept: ClassAbi)
    ensures
        kept_of(ReadClass::Legacy(Some(e)), kept) ==> kept == ClassAbi::Legacy(e),
        kept_of(ReadClass::Legacy(None), kept) ==> (kept matches ClassAbi::Legacy(l) && l@.len()
            == 0),
{
}

/// White space at the end of a text makes no further word.
pub proof fn trailing_space_makes_no_word(a: Seq<char>)
    requires
        a.len() > 0,
        forall|i: int| 0 <= i < a.len() ==> !is_white_space(#[trigger] a[i]),
    ensures
        words(a.push(' ')) == seq![a],
        words(a) == seq![a],
        words(Seq::empty()).len() == 0,
{
    one_word(a);
    assert(a.push(' ').drop_last() =~= a);
    assert(Seq::<Seq<char>>::empty().push(a) =~= seq![a]);
}

/// Other origins may send the headers of gRPC for the web and of WebSockets, and read the status of
/// gRPC.
pub proof fn headers_of_grpc_pass()
    ensures
        allowed_headers() == seq![
            "accept"@,
            "origin"@,
            "content-type"@,
            "access-control-allow-origin"@,
            "upgrade"@,
            "x-grpc-web"@,
            "x-grpc-timeout"@,
            "x-user-agent"@,
            "connection"@,
            "sec-websocket-key"@,
            "sec-websocket-version"@,
            "grpc-accept-encoding"@,
            "grpc-encoding"@,
        ],
        exposed_headers() == seq![
            "grpc-status"@,
            "grpc-message"@,
            "grpc-status-details-bin"@,
            "grpc-encoding"@,
        ],
{
}

/// The class of a contract is the first that is kept of it.
pub proof fn classes_are_found_by_contract(c: Seq<KnownClass>, address: Felt, i: int)
    requires
        0 <= i < c.len(),
        c[i].contract_address == address,
        forall|j: int| 0 <= j < i ==> (#[trigger] c[j]).contract_address != address,
    ensures
        known(c, address) == Some((c[i].class_hash, c[i].class)),
{
    class_is_first(c, address, i);
}

/// The class of a contract stands where it is first kept.
proof fn class_is_first(c: Seq<KnownClass>, address: Felt, i: int)
    requires
        0 <= i <= c.len(),
        i < c.len() ==> c[i].contract_address == address,
        forall|j: int| 0 <= j < i ==> (#[trigger] c[j]).contract_address != address,
    ensures
        class_at(c, address) == (if i < c.len() {
            Some(i)
        } else {
            None
        }),
    decreases c.len(),
{
    if c.len() > 0 {
        let t = c.drop_last();
        assert forall|j: int| 0 <= j < t.len() && j < i implies (#[trigger] t[j]).contract_address
            != address by {
            assert(t[j] == c[j]);
        }
        if i < c.len() - 1 {
            assert(t[i] == c[i]);
            class_is_first(t, address, i);
        } else {
            class_is_first(t, address, t.len() as int);
            if i == c.len() {
                assert(c[c.len() - 1].contract_address != address);
            }
        }
    }
}

/// The number of a token takes exactly 64 digits, and a text of fewer than two words tells no
/// pages.
pub proof fn short_texts_tell_nothing(s: Seq<char>)
    ensures
        s.len() != 64 ==> from_be_hex(s) is None,
        words(s).len() < 2 ==> resident_pages(s) is None,
{
}

} // verus!
