//! What happened to which paths, and how it is written on a line.
use crate::path::{
    compare_bytes, compare_path_lists, components, law_paths_order_agrees_with_components,
    number_order, paths_order, Order,
};
use crate::text::{joined, law_joined_part_by_part, utf8_text};
use core::cmp::Ordering;
use vstd::prelude::*;
use vstd::std_specs::cmp::{PartialEqSpec, PartialOrdSpec};
use vstd::utf8::{decode_utf8, valid_utf8};

verus! {

/// The kinds of event that can be listened for.
#[derive(Debug, Copy, Clone, PartialEq, Eq, PartialOrd, Ord, Structural)]
pub enum EventType {
    Access,
    Modify,
    Move,
    Create,
    Delete,
}

/// The kinds of event that the file system reports.
#[derive(Debug, Copy, Clone, PartialEq, Eq, Structural)]
pub enum EventKind {
    Any,
    Access,
    Create,
    Modify,
    Remove,
    Other,
}

/// An event with the paths that it touched. A path is the bytes of its name: it need
/// not be valid UTF-8. Events compare by their types, and then by the components of their
/// paths.
#[derive(Debug, Clone)]
pub struct EventInfo {
    pub event: EventType,
    pub paths: Vec<Vec<u8>>,
}

/// The event types in the order of their declaration.
pub open spec fn all_event_types() -> Seq<EventType> {
    seq![
        EventType::Access,
        EventType::Modify,
        EventType::Move,
        EventType::Create,
        EventType::Delete,
    ]
}

impl EventType {
    /// The name by which the type is chosen and printed, in kebab case.
    pub open spec fn name(self) -> Seq<char> {
        match self {
            EventType::Access => "access"@,
            EventType::Modify => "modify"@,
            EventType::Move => "move"@,
            EventType::Create => "create"@,
            EventType::Delete => "delete"@,
        }
    }

    /// The identifier of the type, as debug output shows it.
    pub open spec fn identifier(self) -> Seq<char> {
        match self {
            EventType::Access => "Access"@,
            EventType::Modify => "Modify"@,
            EventType::Move => "Move"@,
            EventType::Create => "Create"@,
            EventType::Delete => "Delete"@,
        }
    }

    /// The place of the type in the order of declaration.
    pub open spec fn place(self) -> int {
        match self {
            EventType::Access => 0,
            EventType::Modify => 1,
            EventType::Move => 2,
            EventType::Create => 3,
            EventType::Delete => 4,
        }
    }

    /// Gives the place of the type in the order of declaration.
    fn position(self) -> (place: u8)
        ensures
            place == self.place(),
    {
        match self {
            EventType::Access => 0,
            EventType::Modify => 1,
            EventType::Move => 2,
            EventType::Create => 3,
            EventType::Delete => 4,
        }
    }

    /// The type under which a reported kind is listened for, if any.
    pub open spec fn of_kind(kind: EventKind) -> Option<EventType> {
        match kind {
            EventKind::Access => Some(EventType::Access),
            EventKind::Create => Some(EventType::Create),
            EventKind::Modify => Some(EventType::Modify),
            EventKind::Remove => Some(EventType::Delete),
            EventKind::Any | EventKind::Other => None,
        }
    }

    /// Lists every event type in the order of declaration.
    pub fn iter() -> (types: Vec<EventType>)
        ensures
            types@ == all_event_types(),
    {
        vec![
            EventType::Access,
            EventType::Modify,
            EventType::Move,
            EventType::Create,
            EventType::Delete,
        ]
    }

    /// Gives the name of the type in kebab case.
    pub fn as_str(self) -> (name: &'static str)
        ensures
            name@ == self.name(),
    {
        match self {
            EventType::Access => "access",
            EventType::Modify => "modify",
            EventType::Move => "move",
            EventType::Create => "create",
            EventType::Delete => "delete",
        }
    }

    /// Gives the identifier of the type.
    pub fn debug_str(self) -> (name: &'static str)
        ensures
            name@ == self.identifier(),
    {
        match self {
            EventType::Access => "Access",
            EventType::Modify => "Modify",
            EventType::Move => "Move",
            EventType::Create => "Create",
            EventType::Delete => "Delete",
        }
    }

    /// Finds the type under which a reported kind is listened for.
    pub fn from_kind(kind: EventKind) -> (event: Option<EventType>)
        ensures
            event == EventType::of_kind(kind),
    {
        match kind {
            EventKind::Access => Some(EventType::Access),
            EventKind::Create => Some(EventType::Create),
            EventKind::Modify => Some(EventType::Modify),
            EventKind::Remove => Some(EventType::Delete),
            EventKind::Any => None,
            EventKind::Other => None,
        }
    }
}

impl EventInfo {
    /// The paths as byte sequences.
    pub open spec fn path_bytes(self) -> Seq<Seq<u8>> {
        self.paths@.map_values(|path: Vec<u8>| path@)
    }

    /// The paths that are valid UTF-8, as text, in order. The others are left out.
    pub open spec fn path_texts(self) -> Seq<Seq<char>> {
        self.path_bytes().filter_map(|path: Seq<u8>| utf8_text(path))
    }

    /// The components of the paths.
    pub open spec fn path_components(self) -> Seq<Seq<crate::path::Component<Seq<u8>>>> {
        self.path_bytes().map_values(|path: Seq<u8>| components(path))
    }

    /// The order of events: by the place of their types, and then by their paths.
    pub open spec fn order(self, other: EventInfo) -> Order {
        match number_order(self.event.place(), other.event.place()) {
            Order::Same => paths_order(self.path_bytes(), other.path_bytes()),
            decided => decided,
        }
    }

    /// Compares with another event.
    pub fn compare(&self, other: &EventInfo) -> (res: Order)
        ensures
            res == self.order(*other),
    {
        match compare_bytes(self.event.position(), other.event.position()) {
            Order::Same => compare_path_lists(&self.paths, &other.paths),
            decided => decided,
        }
    }

    /// The line that reports the event: its name, a space, the readable paths with
    /// commas between them, and a line feed.
    pub open spec fn line(self) -> Seq<char> {
        self.event.name() + " "@ + joined(self.path_texts(), ","@) + "\n"@
    }

    /// Turns a report of the file system into an event, unless its kind is not one
    /// that can be listened for.
    pub fn from_report(kind: EventKind, paths: Vec<Vec<u8>>) -> (info: Option<EventInfo>)
        ensures
            match EventType::of_kind(kind) {
                Some(event) => info == Some(EventInfo { event, paths }),
                None => info is None,
            },
    {
        match EventType::from_kind(kind) {
            Some(event) => Some(EventInfo { event, paths }),
            None => None,
        }
    }
}

impl PartialEq for EventInfo {
    fn eq(&self, other: &EventInfo) -> (res: bool) {
        proof {
            law_order_agrees_with_equality(*self, *other);
        }
        self.compare(other) == Order::Same
    }
}

impl vstd::std_specs::cmp::PartialEqSpecImpl for EventInfo {
    open spec fn obeys_eq_spec() -> bool {
        true
    }

    open spec fn eq_spec(&self, other: &EventInfo) -> bool {
        self.event == other.event && self.path_components() == other.path_components()
    }
}

impl Eq for EventInfo {

}

impl PartialOrd for EventInfo {
    fn partial_cmp(&self, other: &EventInfo) -> (res: Option<Ordering>) {
        match self.compare(other) {
            Order::Before => Some(Ordering::Less),
            Order::Same => Some(Ordering::Equal),
            Order::After => Some(Ordering::Greater),
        }
    }
}

impl vstd::std_specs::cmp::PartialOrdSpecImpl for EventInfo {
    open spec fn obeys_partial_cmp_spec() -> bool {
        true
    }

    open spec fn partial_cmp_spec(&self, other: &EventInfo) -> Option<Ordering> {
        match self.order(*other) {
            Order::Before => Some(Ordering::Less),
            Order::Same => Some(Ordering::Equal),
            Order::After => Some(Ordering::Greater),
        }
    }
}

/// Events are at the same place in the order exactly when they are equal: of the same type,
/// with paths of the same components.
pub proof fn law_order_agrees_with_equality(a: EventInfo, b: EventInfo)
    ensures
        a.order(b) == Order::Same <==> {
            &&& a.event == b.event
            &&& a.path_components() == b.path_components()
        },
{
    law_paths_order_agrees_with_components(a.path_bytes(), b.path_bytes());
}

/// Different types of event have different names.
pub proof fn law_event_names_differ(a: EventType, b: EventType)
    requires
        a.name() == b.name(),
    ensures
        a == b,
{
    reveal_strlit("access");
    reveal_strlit("modify");
    reveal_strlit("move");
    reveal_strlit("create");
    reveal_strlit("delete");
    assert("access"@[0] == 'a' && "create"@[0] == 'c' && "delete"@[0] == 'd');
    assert("modify"@[0] == 'm' && "modify"@[2] == 'd');
    assert("move"@[0] == 'm' && "move"@[2] == 'v');
}

/// No report is taken for a move, and different reported kinds are never taken for the same
/// type of event.
pub proof fn law_reported_kinds_and_types(a: EventKind, b: EventKind)
    requires
        EventType::of_kind(a) is Some,
    ensures
        EventType::of_kind(a) != Some(EventType::Move),
        EventType::of_kind(a) == EventType::of_kind(b) ==> a == b,
{
}

/// The list of event types holds each type once, at its place.
pub proof fn law_list_of_event_types(event: EventType)
    ensures
        all_event_types().len() == 5,
        0 <= event.place() < 5,
        all_event_types()[event.place()] == event,
        EventType::Access.place() < EventType::Modify.place() < EventType::Move.place()
            < EventType::Create.place() < EventType::Delete.place(),
{
}

/// What each type of event is called: in lines and on the command line, and in debug output.
pub proof fn law_names_of_event_types(event: EventType)
    ensures
        event == EventType::Access ==> event.name() == "access"@ && event.identifier()
            == "Access"@,
        event == EventType::Modify ==> event.name() == "modify"@ && event.identifier()
            == "Modify"@,
        event == EventType::Move ==> event.name() == "move"@ && event.identifier() == "Move"@,
        event == EventType::Create ==> event.name() == "create"@ && event.identifier()
            == "Create"@,
        event == EventType::Delete ==> event.name() == "delete"@ && event.identifier()
            == "Delete"@,
{
}

/// Accesses, creations and modifications keep their type, removals are deletions, and only
/// reports of any or another kind are of no type.
pub proof fn law_types_of_reports(kind: EventKind)
    ensures
        EventType::of_kind(kind) == Some(EventType::Access) <==> kind == EventKind::Access,
        EventType::of_kind(kind) == Some(EventType::Create) <==> kind == EventKind::Create,
        EventType::of_kind(kind) == Some(EventType::Modify) <==> kind == EventKind::Modify,
        EventType::of_kind(kind) == Some(EventType::Delete) <==> kind == EventKind::Remove,
        EventType::of_kind(kind) is None <==> kind == EventKind::Any || kind == EventKind::Other,
{
}

/// The byte sequences of an event's paths are those of its paths, in order.
pub proof fn law_path_bytes_one_by_one(info: EventInfo)
    ensures
        info.path_bytes().len() == info.paths@.len(),
        forall|i: int|
            0 <= i < info.paths@.len() ==> #[trigger] info.path_bytes()[i] == info.paths@[i]@,
{
}

/// The line of an event whose paths are all readable: its name, a space, the decoded texts of
/// all paths in order with commas between them, and a line feed. No readable path is lost,
/// wherever it lies and whatever it is called.
pub proof fn law_line_shows_every_readable_path(info: EventInfo)
    requires
        forall|i: int| 0 <= i < info.paths@.len() ==> valid_utf8(#[trigger] info.paths@[i]@),
    ensures
        info.line() == info.event.name() + " "@ + joined(
            Seq::new(info.paths@.len(), |i: int| decode_utf8(info.paths@[i]@)),
            ","@,
        ) + "\n"@,
        info.paths@.len() == 0 ==> info.line() == info.event.name() + " "@ + "\n"@,
        info.paths@.len() == 1 ==> info.line() == info.event.name() + " "@ + decode_utf8(
            info.paths@[0]@,
        ) + "\n"@,
        info.paths@.len() == 2 ==> info.line() == info.event.name() + " "@ + decode_utf8(
            info.paths@[0]@,
        ) + ","@ + decode_utf8(info.paths@[1]@) + "\n"@,
{
    let n = info.paths@.len();
    let all = Seq::new(n, |i: int| decode_utf8(info.paths@[i]@));
    let bytes = info.path_bytes();
    assert forall|i: int| 0 <= i < bytes.len() implies utf8_text(#[trigger] bytes[i]) == Some(
        decode_utf8(bytes[i]),
    ) by {
        assert(valid_utf8(info.paths@[i]@));
    }
    lemma_all_readable(bytes);
    assert(bytes.map_values(|p: Seq<u8>| decode_utf8(p)) =~= all);
    assert(info.path_texts() == all);
    if n == 0 {
        assert(all =~= Seq::empty());
        law_joined_part_by_part(all, Seq::empty(), ","@);
        assert(info.line() =~= info.event.name() + " "@ + "\n"@);
    }
    if n == 1 {
        assert(all =~= seq![all[0]]);
        law_joined_part_by_part(all, all[0], ","@);
    }
    if n == 2 {
        assert(all =~= seq![all[0]].push(all[1]));
        law_joined_part_by_part(seq![all[0]], all[0], ","@);
        law_joined_part_by_part(seq![all[0]], all[1], ","@);
        assert(info.line() =~= info.event.name() + " "@ + all[0] + ","@ + all[1] + "\n"@);
    }
}

/// A path is left out of the line if and only if it is not valid UTF-8: taking the path at
/// index `i` away leaves the line as it is where the path is unreadable. Where it is readable,
/// its text goes, at the place that its index gives it among the readable ones, and nothing
/// else.
pub proof fn law_line_leaves_out_unreadable_paths(info: EventInfo, less: EventInfo, i: int)
    requires
        0 <= i < info.paths@.len(),
        less.event == info.event,
        less.paths@ == info.paths@.remove(i),
    ensures
        !valid_utf8(info.paths@[i]@) ==> info.line() == less.line(),
        valid_utf8(info.paths@[i]@) ==> exists|k: int|
            {
                &&& 0 <= k <= i
                &&& k < info.path_texts().len()
                &&& info.path_texts()[k] == decode_utf8(info.paths@[i]@)
                &&& less.path_texts() == #[trigger] info.path_texts().remove(k)
            },
        info.line() == info.event.name() + " "@ + joined(info.path_texts(), ","@) + "\n"@,
{
    let read = |p: Seq<u8>| utf8_text(p);
    let bytes = info.path_bytes();
    let head = bytes.take(i);
    let tail = bytes.skip(i + 1);
    assert(bytes =~= head + seq![bytes[i]] + tail);
    assert(less.path_bytes() =~= head + tail);
    lemma_filter_map_append(head + seq![bytes[i]], tail, read);
    lemma_filter_map_append(head, seq![bytes[i]], read);
    lemma_filter_map_append(head, tail, read);
    Seq::lemma_filter_map_singleton(bytes[i], read);
    lemma_filter_map_len(head, read);
    let k: int = head.filter_map(read).len() as int;
    if valid_utf8(info.paths@[i]@) {
        assert(less.path_texts() =~= info.path_texts().remove(k));
    } else {
        assert(less.path_texts() =~= info.path_texts());
    }
}

/// The readable paths of an event with one path more at the end are those without it, and the
/// text of that path behind them if it is valid UTF-8. Without paths there are none.
pub proof fn law_readable_paths_one_by_one(info: EventInfo, more: EventInfo, path: Vec<u8>)
    requires
        more.paths@ == info.paths@.push(path),
    ensures
        info.paths@.len() == 0 ==> info.path_texts() == Seq::<Seq<char>>::empty(),
        more.path_texts() == (if valid_utf8(path@) {
            info.path_texts().push(decode_utf8(path@))
        } else {
            info.path_texts()
        }),
{
    assert(more.path_bytes() =~= info.path_bytes().push(path@));
    assert(more.path_bytes().drop_last() =~= info.path_bytes());
    assert(more.path_bytes().last() == path@);
}

proof fn lemma_all_readable(bytes: Seq<Seq<u8>>)
    requires
        forall|i: int|
            0 <= i < bytes.len() ==> utf8_text(#[trigger] bytes[i]) == Some(decode_utf8(bytes[i])),
    ensures
        bytes.filter_map(|p: Seq<u8>| utf8_text(p)) == bytes.map_values(
            |p: Seq<u8>| decode_utf8(p),
        ),
    decreases bytes.len(),
{
    if bytes.len() > 0 {
        let front = bytes.drop_last();
        assert forall|i: int| 0 <= i < front.len() implies utf8_text(#[trigger] front[i]) == Some(
            decode_utf8(front[i]),
        ) by {
            assert(front[i] == bytes[i]);
        }
        lemma_all_readable(front);
        assert(utf8_text(bytes[bytes.len() - 1]) is Some);
        assert(bytes.map_values(|p: Seq<u8>| decode_utf8(p)) =~= front.map_values(
            |p: Seq<u8>| decode_utf8(p),
        ).push(decode_utf8(bytes.last())));
    }
}

proof fn lemma_filter_map_append<A, B>(a: Seq<A>, b: Seq<A>, f: spec_fn(A) -> Option<B>)
    ensures
        (a + b).filter_map(f) == a.filter_map(f) + b.filter_map(f),
    decreases b.len(),
{
    if b.len() == 0 {
        assert(a + b =~= a);
        assert(a.filter_map(f) + b.filter_map(f) =~= a.filter_map(f));
    } else {
        lemma_filter_map_append(a, b.drop_last(), f);
        assert((a + b).drop_last() =~= a + b.drop_last());
        assert((a + b).last() == b.last());
        assert((a + b).filter_map(f) =~= a.filter_map(f) + b.filter_map(f));
    }
}

proof fn lemma_filter_map_len<A, B>(a: Seq<A>, f: spec_fn(A) -> Option<B>)
    ensures
        a.filter_map(f).len() <= a.len(),
    decreases a.len(),
{
    if a.len() > 0 {
        lemma_filter_map_len(a.drop_last(), f);
    }
}

/// Events of different types come in the order in which the types are declared, whatever their
/// paths are. Events of the same type come in the order of their paths.
pub proof fn law_order_of_events(a: EventInfo, b: EventInfo)
    ensures
        a.event.place() < b.event.place() ==> a.order(b) == Order::Before,
        a.event.place() > b.event.place() ==> a.order(b) == Order::After,
        a.event == b.event ==> a.order(b) == paths_order(a.path_bytes(), b.path_bytes()),
{
}

/// Events are equal exactly if they are of the same type and have equally many paths, with the
/// same components one by one.
pub proof fn law_equal_events(a: EventInfo, b: EventInfo)
    ensures
        a.eq_spec(&b) <==> {
            &&& a.event == b.event
            &&& a.paths@.len() == b.paths@.len()
            &&& forall|i: int|
                0 <= i < a.paths@.len() ==> components((#[trigger] a.paths@[i])@) == components(
                    b.paths@[i]@,
                )
        },
        EventInfo::obeys_eq_spec(),
{
    let x = a.path_components();
    let y = b.path_components();
    if a.eq_spec(&b) {
        assert(x.len() == y.len());
        assert forall|i: int| 0 <= i < a.paths@.len() implies components(
            (#[trigger] a.paths@[i])@,
        ) == components(b.paths@[i]@) by {
            assert(x[i] == y[i]);
        }
    }
    if a.paths@.len() == b.paths@.len() && forall|i: int|
        0 <= i < a.paths@.len() ==> components((#[trigger] a.paths@[i])@) == components(
            b.paths@[i]@,
        ) {
        assert(x =~= y);
    }
}

/// What the comparison of events gives tells their order.
pub proof fn law_comparison_of_events(a: EventInfo, b: EventInfo)
    ensures
        a.partial_cmp_spec(&b) == Some(Ordering::Less) <==> a.order(b) == Order::Before,
        a.partial_cmp_spec(&b) == Some(Ordering::Equal) <==> a.order(b) == Order::Same,
        a.partial_cmp_spec(&b) == Some(Ordering::Greater) <==> a.order(b) == Order::After,
        a.partial_cmp_spec(&b) is Some,
        EventInfo::obeys_partial_cmp_spec(),
{
}

/// A report becomes an event of the type that its kind stands for, with all of its paths as they
/// are, and is dropped only if its kind stands for none.
pub proof fn law_report_becomes_event(
    kind: EventKind,
    paths: Vec<Vec<u8>>,
    info: Option<EventInfo>,
)
    requires
        call_ensures(EventInfo::from_report, (kind, paths), info),
    ensures
        info is None <==> kind == EventKind::Any || kind == EventKind::Other,
        info matches Some(event) ==> {
            &&& event.paths == paths
            &&& event.event == EventType::Access <==> kind == EventKind::Access
            &&& event.event == EventType::Create <==> kind == EventKind::Create
            &&& event.event == EventType::Modify <==> kind == EventKind::Modify
            &&& event.event == EventType::Delete <==> kind == EventKind::Remove
        },
{
}

} // verus!
