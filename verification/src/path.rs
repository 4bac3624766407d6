//! How paths compare: by their components, not by their bytes.
use vstd::prelude::*;

verus! {

/// The byte between the names of a path.
pub const SEPARATOR: u8 = 47;

/// A component of a path. `T` is the type of names.
#[derive(Debug)]
pub enum Component<T> {
    /// The root directory, at the start of an absolute path.
    Root,
    /// The current directory, at the start of a relative path.
    Current,
    /// The parent directory.
    Parent,
    /// A file or directory by name.
    Normal(T),
}

impl View for Component<Vec<u8>> {
    type V = Component<Seq<u8>>;

    open spec fn view(&self) -> Component<Seq<u8>> {
        match *self {
            Component::Root => Component::Root,
            Component::Current => Component::Current,
            Component::Parent => Component::Parent,
            Component::Normal(name) => Component::Normal(name@),
        }
    }
}

/// How two values stand to each other in an order.
#[derive(Debug, Copy, Clone, PartialEq, Eq, Structural)]
pub enum Order {
    Before,
    Same,
    After,
}

/// The pieces of a path between its separators, empty ones included.
pub open spec fn segments(path: Seq<u8>) -> Seq<Seq<u8>>
    decreases path.len(),
{
    if path.len() == 0 {
        seq![Seq::empty()]
    } else {
        let before = segments(path.drop_last());
        if path.last() == SEPARATOR {
            before.push(Seq::empty())
        } else {
            before.drop_last().push(before.last().push(path.last()))
        }
    }
}

/// What a piece stands for: nothing between repeated separators, nothing for `.`, the parent
/// directory for `..`, and else a name.
pub open spec fn component_of(segment: Seq<u8>) -> Option<Component<Seq<u8>>> {
    if segment == Seq::<u8>::empty() || segment == seq![46u8] {
        None
    } else if segment == seq![46u8, 46u8] {
        Some(Component::Parent)
    } else {
        Some(Component::Normal(segment))
    }
}

/// What a path begins with: the root if it begins with a separator, the current directory if
/// its first piece is `.`.
pub open spec fn beginning(path: Seq<u8>) -> Seq<Component<Seq<u8>>> {
    if path.len() > 0 && path[0] == SEPARATOR {
        seq![Component::Root]
    } else if path.len() > 0 && path[0] == 46 && (path.len() == 1 || path[1] == SEPARATOR) {
        seq![Component::Current]
    } else {
        Seq::empty()
    }
}

/// The components of a path. Repeated and trailing separators do not matter, nor does `.`
/// anywhere but at the beginning.
pub open spec fn components(path: Seq<u8>) -> Seq<Component<Seq<u8>>> {
    beginning(path) + segments(path).filter_map(|segment: Seq<u8>| component_of(segment))
}

/// The order of sequences that the first difference decides, with shorter sequences first.
pub open spec fn lexicographic<A>(order: spec_fn(A, A) -> Order, a: Seq<A>, b: Seq<A>) -> Order
    decreases a.len(),
{
    if a.len() == 0 {
        if b.len() == 0 {
            Order::Same
        } else {
            Order::Before
        }
    } else if b.len() == 0 {
        Order::After
    } else {
        match order(a[0], b[0]) {
            Order::Same => lexicographic(order, a.skip(1), b.skip(1)),
            decided => decided,
        }
    }
}

/// The order of numbers.
pub open spec fn number_order(a: int, b: int) -> Order {
    if a < b {
        Order::Before
    } else if a == b {
        Order::Same
    } else {
        Order::After
    }
}

/// The order of bytes.
pub open spec fn byte_order(a: u8, b: u8) -> Order {
    number_order(a as int, b as int)
}

/// The place of a component among the others: the root first, names last.
pub open spec fn component_rank(component: Component<Seq<u8>>) -> int {
    match component {
        Component::Root => 0,
        Component::Current => 1,
        Component::Parent => 2,
        Component::Normal(_) => 3,
    }
}

/// The order of components: names among each other by their bytes.
pub open spec fn component_order(a: Component<Seq<u8>>, b: Component<Seq<u8>>) -> Order {
    match (a, b) {
        (Component::Normal(x), Component::Normal(y)) => lexicographic(
            |p: u8, q: u8| byte_order(p, q),
            x,
            y,
        ),
        _ => number_order(component_rank(a), component_rank(b)),
    }
}

/// The order of paths, by their components.
pub open spec fn path_order(a: Seq<u8>, b: Seq<u8>) -> Order {
    lexicographic(
        |p: Component<Seq<u8>>, q: Component<Seq<u8>>| component_order(p, q),
        components(a),
        components(b),
    )
}

/// The order of lists of paths.
pub open spec fn paths_order(a: Seq<Seq<u8>>, b: Seq<Seq<u8>>) -> Order {
    lexicographic(|p: Seq<u8>, q: Seq<u8>| path_order(p, q), a, b)
}

/// The views of a list of components.
pub open spec fn component_views(list: Seq<Component<Vec<u8>>>) -> Seq<Component<Seq<u8>>> {
    list.map_values(|c: Component<Vec<u8>>| c@)
}

/// Finds what a piece of a path stands for.
fn piece(segment: Vec<u8>) -> (res: Option<Component<Vec<u8>>>)
    ensures
        component_of(segment@) == (match res {
            Some(component) => Some(component@),
            None => None,
        }),
{
    if segment.len() == 0 {
        assert(segment@ =~= Seq::<u8>::empty());
        return None;
    }
    if segment.len() == 1 && segment[0] == 46 {
        assert(segment@ =~= seq![46u8]);
        return None;
    }
    if segment.len() == 2 && segment[0] == 46 && segment[1] == 46 {
        assert(segment@ =~= seq![46u8, 46u8]);
        return Some(Component::Parent);
    }
    assert(segment@ != Seq::<u8>::empty() && segment@ != seq![46u8] && segment@ != seq![
        46u8,
        46u8,
    ]);
    Some(Component::Normal(segment))
}

/// Takes a path apart into its components.
fn split(path: &Vec<u8>) -> (res: Vec<Component<Vec<u8>>>)
    ensures
        component_views(res@) == components(path@),
{
    let ghost read = |segment: Seq<u8>| component_of(segment);
    let mut found: Vec<Component<Vec<u8>>> = Vec::new();
    if path.len() > 0 && path[0] == SEPARATOR {
        found.push(Component::Root);
    } else if path.len() > 0 && path[0] == 46 && (path.len() == 1 || path[1] == SEPARATOR) {
        found.push(Component::Current);
    }
    assert(component_views(found@) =~= beginning(path@));
    let mut current: Vec<u8> = Vec::new();
    let mut i: usize = 0;
    proof {
        assert(path@.take(0) =~= Seq::empty());
        let first = segments(path@.take(0));
        assert(first.drop_last() =~= Seq::empty());
        assert(component_views(found@) =~= beginning(path@) + first.drop_last().filter_map(read));
        assert(current@ =~= first.last());
    }
    while i < path.len()
        invariant
            0 <= i <= path.len(),
            read == |segment: Seq<u8>| component_of(segment),
            segments(path@.take(i as int)).len() > 0,
            current@ == segments(path@.take(i as int)).last(),
            component_views(found@) == beginning(path@) + segments(
                path@.take(i as int),
            ).drop_last().filter_map(read),
        decreases path.len() - i,
    {
        let ghost before = segments(path@.take(i as int));
        let ghost after = segments(path@.take(i + 1));
        let byte: u8 = path[i];
        proof {
            assert(path@.take(i + 1).drop_last() =~= path@.take(i as int));
            assert(path@.take(i + 1).last() == byte);
        }
        if byte == SEPARATOR {
            let ghost earlier = found@;
            assert(after.drop_last() =~= before);
            match piece(current) {
                Some(component) => {
                    found.push(component);
                    assert(component_views(found@) =~= component_views(earlier).push(component@));
                },
                None => {},
            }
            current = Vec::new();
            assert(current@ =~= after.last());
            assert(component_views(found@) =~= beginning(path@) + before.filter_map(read));
        } else {
            current.push(byte);
            assert(after.drop_last() =~= before.drop_last());
        }
        i = i + 1;
    }
    assert(path@.take(i as int) =~= path@);
    let ghost earlier = found@;
    match piece(current) {
        Some(component) => {
            found.push(component);
            assert(component_views(found@) =~= component_views(earlier).push(component@));
        },
        None => {},
    }
    assert(component_views(found@) =~= components(path@));
    found
}

/// Compares two bytes.
pub(crate) fn compare_bytes(a: u8, b: u8) -> (res: Order)
    ensures
        res == byte_order(a, b),
{
    if a < b {
        Order::Before
    } else if a == b {
        Order::Same
    } else {
        Order::After
    }
}

/// Compares two names.
fn compare_names(a: &Vec<u8>, b: &Vec<u8>) -> (res: Order)
    ensures
        res == lexicographic(|p: u8, q: u8| byte_order(p, q), a@, b@),
{
    let ghost order = |p: u8, q: u8| byte_order(p, q);
    let mut i: usize = 0;
    assert(a@.skip(0) =~= a@ && b@.skip(0) =~= b@);
    while i < a.len() && i < b.len()
        invariant
            0 <= i <= a.len(),
            i <= b.len(),
            order == |p: u8, q: u8| byte_order(p, q),
            lexicographic(order, a@, b@) == lexicographic(
                order,
                a@.skip(i as int),
                b@.skip(i as int),
            ),
        decreases a.len() - i,
    {
        proof {
            assert(a@.skip(i as int).skip(1) =~= a@.skip(i + 1));
            assert(b@.skip(i as int).skip(1) =~= b@.skip(i + 1));
        }
        match compare_bytes(a[i], b[i]) {
            Order::Same => {},
            decided => {
                return decided;
            },
        }
        i = i + 1;
    }
    if i < b.len() {
        Order::Before
    } else if i < a.len() {
        Order::After
    } else {
        Order::Same
    }
}

/// Gives the place of a component among the others.
fn rank(component: &Component<Vec<u8>>) -> (res: u8)
    ensures
        res == component_rank(component@),
{
    match component {
        Component::Root => 0,
        Component::Current => 1,
        Component::Parent => 2,
        Component::Normal(_) => 3,
    }
}

/// Compares two components.
fn compare_components(a: &Component<Vec<u8>>, b: &Component<Vec<u8>>) -> (res: Order)
    ensures
        res == component_order(a@, b@),
{
    match (a, b) {
        (Component::Normal(x), Component::Normal(y)) => compare_names(x, y),
        _ => compare_bytes(rank(a), rank(b)),
    }
}

/// Compares two paths by their components.
fn compare_paths(a: &Vec<u8>, b: &Vec<u8>) -> (res: Order)
    ensures
        res == path_order(a@, b@),
{
    let ghost order = |p: Component<Seq<u8>>, q: Component<Seq<u8>>| component_order(p, q);
    let x = split(a);
    let y = split(b);
    let ghost xs = component_views(x@);
    let ghost ys = component_views(y@);
    let mut i: usize = 0;
    assert(xs.skip(0) =~= xs && ys.skip(0) =~= ys);
    while i < x.len() && i < y.len()
        invariant
            0 <= i <= x.len(),
            i <= y.len(),
            xs == component_views(x@),
            ys == component_views(y@),
            order == |p: Component<Seq<u8>>, q: Component<Seq<u8>>| component_order(p, q),
            path_order(a@, b@) == lexicographic(order, xs.skip(i as int), ys.skip(i as int)),
        decreases x.len() - i,
    {
        proof {
            assert(xs.skip(i as int).skip(1) =~= xs.skip(i + 1));
            assert(ys.skip(i as int).skip(1) =~= ys.skip(i + 1));
        }
        match compare_components(&x[i], &y[i]) {
            Order::Same => {},
            decided => {
                return decided;
            },
        }
        i = i + 1;
    }
    if i < y.len() {
        Order::Before
    } else if i < x.len() {
        Order::After
    } else {
        Order::Same
    }
}

/// Compares two lists of paths.
pub(crate) fn compare_path_lists(a: &Vec<Vec<u8>>, b: &Vec<Vec<u8>>) -> (res: Order)
    ensures
        res == paths_order(
            a@.map_values(|path: Vec<u8>| path@),
            b@.map_values(|path: Vec<u8>| path@),
        ),
{
    let ghost order = |p: Seq<u8>, q: Seq<u8>| path_order(p, q);
    let ghost xs = a@.map_values(|path: Vec<u8>| path@);
    let ghost ys = b@.map_values(|path: Vec<u8>| path@);
    let mut i: usize = 0;
    assert(xs.skip(0) =~= xs && ys.skip(0) =~= ys);
    while i < a.len() && i < b.len()
        invariant
            0 <= i <= a.len(),
            i <= b.len(),
            xs == a@.map_values(|path: Vec<u8>| path@),
            ys == b@.map_values(|path: Vec<u8>| path@),
            order == |p: Seq<u8>, q: Seq<u8>| path_order(p, q),
            paths_order(xs, ys) == lexicographic(order, xs.skip(i as int), ys.skip(i as int)),
        decreases a.len() - i,
    {
        proof {
            assert(xs.skip(i as int).skip(1) =~= xs.skip(i + 1));
            assert(ys.skip(i as int).skip(1) =~= ys.skip(i + 1));
        }
        match compare_paths(&a[i], &b[i]) {
            Order::Same => {},
            decided => {
                return decided;
            },
        }
        i = i + 1;
    }
    if i < b.len() {
        Order::Before
    } else if i < a.len() {
        Order::After
    } else {
        Order::Same
    }
}

/// Sequences are at the same place exactly when they are equally long and their elements are
/// pairwise at the same place.
proof fn lemma_lexicographic_same<A>(order: spec_fn(A, A) -> Order, a: Seq<A>, b: Seq<A>)
    ensures
        lexicographic(order, a, b) == Order::Same <==> {
            &&& a.len() == b.len()
            &&& forall|i: int|
                0 <= i < a.len() ==> order(#[trigger] a[i], b[i]) == Order::Same
        },
    decreases a.len(),
{
    if a.len() > 0 && b.len() > 0 {
        let x = a.skip(1);
        let y = b.skip(1);
        lemma_lexicographic_same(order, x, y);
        if lexicographic(order, a, b) == Order::Same {
            assert forall|i: int| 0 <= i < a.len() implies order(#[trigger] a[i], b[i])
                == Order::Same by {
                if i > 0 {
                    assert(order(x[i - 1], y[i - 1]) == Order::Same);
                }
            }
        }
        if a.len() == b.len() && forall|i: int|
            0 <= i < a.len() ==> order(#[trigger] a[i], b[i]) == Order::Same {
            assert(order(a[0], b[0]) == Order::Same);
            assert forall|i: int| 0 <= i < x.len() implies order(#[trigger] x[i], y[i])
                == Order::Same by {
                assert(order(a[i + 1], b[i + 1]) == Order::Same);
            }
        }
    }
}

/// Components are at the same place exactly when they are equal.
proof fn lemma_component_order_same(a: Component<Seq<u8>>, b: Component<Seq<u8>>)
    ensures
        component_order(a, b) == Order::Same <==> a == b,
{
    match (a, b) {
        (Component::Normal(x), Component::Normal(y)) => {
            let order = |p: u8, q: u8| byte_order(p, q);
            lemma_lexicographic_same(order, x, y);
            if component_order(a, b) == Order::Same {
                assert forall|i: int| 0 <= i < x.len() implies x[i] == y[i] by {
                    assert(order(x[i], y[i]) == Order::Same);
                }
                assert(x =~= y);
            }
        },
        _ => {},
    }
}

/// Two paths are at the same place in the order exactly when their components are equal.
pub proof fn law_path_order_agrees_with_components(a: Seq<u8>, b: Seq<u8>)
    ensures
        path_order(a, b) == Order::Same <==> components(a) == components(b),
{
    let order = |p: Component<Seq<u8>>, q: Component<Seq<u8>>| component_order(p, q);
    let xs = components(a);
    let ys = components(b);
    lemma_lexicographic_same(order, xs, ys);
    assert forall|i: int| 0 <= i < xs.len() && xs.len() == ys.len() implies (order(
        #[trigger] xs[i],
        ys[i],
    ) == Order::Same <==> xs[i] == ys[i]) by {
        lemma_component_order_same(xs[i], ys[i]);
    }
    if path_order(a, b) == Order::Same {
        assert(xs =~= ys);
    }
}

/// Two lists of paths are at the same place in the order exactly when they are equally long
/// and their paths have pairwise equal components.
pub proof fn law_paths_order_agrees_with_components(a: Seq<Seq<u8>>, b: Seq<Seq<u8>>)
    ensures
        paths_order(a, b) == Order::Same <==> {
            a.map_values(|p: Seq<u8>| components(p)) == b.map_values(|p: Seq<u8>| components(p))
        },
{
    let order = |p: Seq<u8>, q: Seq<u8>| path_order(p, q);
    let xs = a.map_values(|p: Seq<u8>| components(p));
    let ys = b.map_values(|p: Seq<u8>| components(p));
    lemma_lexicographic_same(order, a, b);
    assert forall|i: int| 0 <= i < a.len() && a.len() == b.len() implies (order(
        #[trigger] a[i],
        b[i],
    ) == Order::Same <==> xs[i] == ys[i]) by {
        law_path_order_agrees_with_components(a[i], b[i]);
    }
    if paths_order(a, b) == Order::Same {
        assert(xs =~= ys);
    }
    if xs == ys {
        assert(a.len() == xs.len() && b.len() == ys.len());
    }
}

/// The view of a component changes nothing but the type of its name.
pub proof fn law_component_views(component: Component<Vec<u8>>, list: Seq<Component<Vec<u8>>>)
    ensures
        component@ is Root <==> component is Root,
        component@ is Current <==> component is Current,
        component@ is Parent <==> component is Parent,
        component matches Component::Normal(name) ==> component@ == Component::Normal(name@),
        component_views(list).len() == list.len(),
        forall|i: int| 0 <= i < list.len() ==> #[trigger] component_views(list)[i] == list[i]@,
{
}

/// A name behind a separator adds one component to those of the path before it: the parent
/// directory if it is `..`, and else itself; but nothing if it is empty or `.`. Behind no path
/// at all the separator stands for the root. In particular every name counts, and its bytes are
/// kept.
pub proof fn law_components_name_by_name(path: Seq<u8>, name: Seq<u8>)
    requires
        !name.contains(47u8),
    ensures
        components(path + seq![47u8] + name) == (if path.len() == 0 {
            seq![Component::Root]
        } else {
            components(path)
        }) + (if name.len() == 0 || name == seq![46u8] {
            Seq::empty()
        } else if name == seq![46u8, 46u8] {
            seq![Component::Parent]
        } else {
            seq![Component::Normal(name)]
        }),
{
    let read = |segment: Seq<u8>| component_of(segment);
    let whole = path + seq![47u8] + name;
    lemma_segments_name_by_name(path, name);
    assert(segments(whole).drop_last() =~= segments(path));
    assert(segments(whole).last() == name);
    if name.len() == 0 {
        assert(name =~= Seq::empty());
    }
    if path.len() == 0 {
        assert(whole[0] == 47);
        let first = segments(path);
        assert(first =~= seq![Seq::empty()]);
        Seq::lemma_filter_map_singleton(Seq::<u8>::empty(), read);
    } else {
        assert(whole[0] == path[0]);
        if path.len() == 1 {
            assert(whole[1] == 47);
        } else {
            assert(whole[1] == path[1]);
        }
        assert(beginning(whole) == beginning(path));
    }
    assert(components(whole) =~= beginning(whole) + segments(path).filter_map(read) + (
    match component_of(name) {
        Some(component) => seq![component],
        None => Seq::empty(),
    }));
}

/// A path without separators is one component: the current directory if it is `.`, the parent
/// directory if it is `..`, and else its name. The empty path has none.
pub proof fn law_components_of_name(name: Seq<u8>)
    requires
        !name.contains(47u8),
    ensures
        components(name) == (if name.len() == 0 {
            Seq::empty()
        } else if name == seq![46u8] {
            seq![Component::Current]
        } else if name == seq![46u8, 46u8] {
            seq![Component::Parent]
        } else {
            seq![Component::Normal(name)]
        }),
{
    let read = |segment: Seq<u8>| component_of(segment);
    lemma_segments_of_name(name);
    Seq::lemma_filter_map_singleton(name, read);
    if name.len() > 0 {
        assert(name.contains(name[0]));
        if name.len() > 1 {
            assert(name.contains(name[1]));
        }
        if name[0] == 46 && name.len() == 1 {
            assert(name =~= seq![46u8]);
        }
    } else {
        assert(name =~= Seq::empty());
    }
    assert(components(name) =~= beginning(name) + (match component_of(name) {
        Some(component) => seq![component],
        None => Seq::empty(),
    }));
}

proof fn lemma_segments_name_by_name(path: Seq<u8>, name: Seq<u8>)
    requires
        !name.contains(47u8),
    ensures
        segments(path + seq![47u8] + name) == segments(path).push(name),
    decreases name.len(),
{
    let whole = path + seq![47u8] + name;
    if name.len() == 0 {
        assert(whole.drop_last() =~= path);
        assert(whole.last() == SEPARATOR);
        assert(name =~= Seq::empty());
    } else {
        let shorter = name.drop_last();
        assert forall|i: int| 0 <= i < shorter.len() implies shorter[i] != 47 by {
            assert(name.contains(name[i]));
        }
        lemma_segments_name_by_name(path, shorter);
        assert(name.contains(name.last()));
        assert(whole.drop_last() =~= path + seq![47u8] + shorter);
        assert(whole.last() == name.last());
        let before = segments(path).push(shorter);
        assert(before.drop_last() =~= segments(path));
        assert(shorter.push(name.last()) =~= name);
    }
}

proof fn lemma_segments_of_name(name: Seq<u8>)
    requires
        !name.contains(47u8),
    ensures
        segments(name) == seq![name],
    decreases name.len(),
{
    if name.len() == 0 {
        assert(name =~= Seq::empty());
    } else {
        let shorter = name.drop_last();
        assert forall|i: int| 0 <= i < shorter.len() implies shorter[i] != 47 by {
            assert(name.contains(name[i]));
        }
        lemma_segments_of_name(shorter);
        assert(name.contains(name.last()));
        assert(shorter.push(name.last()) =~= name);
        assert(seq![shorter].drop_last().push(name) =~= seq![name]);
    }
}

/// The first difference decides: sequences that agree before index `k` stand to each other as
/// their elements at `k` do, if those differ; and where one ends at `k`, it comes first.
pub proof fn law_first_difference_decides<A>(
    order: spec_fn(A, A) -> Order,
    a: Seq<A>,
    b: Seq<A>,
    k: int,
)
    requires
        0 <= k <= a.len(),
        k <= b.len(),
        forall|i: int| 0 <= i < k ==> order(#[trigger] a[i], b[i]) == Order::Same,
    ensures
        k == a.len() && k == b.len() ==> lexicographic(order, a, b) == Order::Same,
        k == a.len() && k < b.len() ==> lexicographic(order, a, b) == Order::Before,
        k == b.len() && k < a.len() ==> lexicographic(order, a, b) == Order::After,
        k < a.len() && k < b.len() && order(a[k], b[k]) != Order::Same ==> lexicographic(order, a, b)
            == order(a[k], b[k]),
    decreases k,
{
    if k > 0 {
        let x = a.skip(1);
        let y = b.skip(1);
        assert(order(a[0], b[0]) == Order::Same);
        assert forall|i: int| 0 <= i < k - 1 implies order(#[trigger] x[i], y[i])
            == Order::Same by {
            assert(order(a[i + 1], b[i + 1]) == Order::Same);
        }
        law_first_difference_decides(order, x, y, k - 1);
        if k < a.len() && k < b.len() {
            assert(x[k - 1] == a[k] && y[k - 1] == b[k]);
        }
    }
}

/// Numbers and bytes come in the order of their size.
pub proof fn law_smaller_comes_first(a: int, b: int, p: u8, q: u8)
    ensures
        number_order(a, b) == Order::Before <==> a < b,
        number_order(a, b) == Order::Same <==> a == b,
        number_order(a, b) == Order::After <==> a > b,
        byte_order(p, q) == Order::Before <==> p < q,
        byte_order(p, q) == Order::Same <==> p == q,
        byte_order(p, q) == Order::After <==> p > q,
{
}

/// The root comes before the current directory, that before the parent directory, and that
/// before every name. Names of which one is the beginning of the other come with the shorter one
/// first, and others in the order of the first byte in which they differ.
pub proof fn law_order_of_components(x: Seq<u8>, y: Seq<u8>, k: int)
    requires
        0 <= k <= x.len(),
        k <= y.len(),
        x.take(k) == y.take(k),
    ensures
        component_order(Component::Root, Component::Root) == Order::Same,
        component_order(Component::Current, Component::Current) == Order::Same,
        component_order(Component::Parent, Component::Parent) == Order::Same,
        component_order(Component::Root, Component::Current) == Order::Before,
        component_order(Component::Root, Component::Parent) == Order::Before,
        component_order(Component::Root, Component::Normal(y)) == Order::Before,
        component_order(Component::Current, Component::Parent) == Order::Before,
        component_order(Component::Current, Component::Normal(y)) == Order::Before,
        component_order(Component::Parent, Component::Normal(y)) == Order::Before,
        component_order(Component::Current, Component::Root) == Order::After,
        component_order(Component::Parent, Component::Root) == Order::After,
        component_order(Component::Normal(x), Component::Root) == Order::After,
        component_order(Component::Parent, Component::Current) == Order::After,
        component_order(Component::Normal(x), Component::Current) == Order::After,
        component_order(Component::Normal(x), Component::Parent) == Order::After,
        k == x.len() && k == y.len() ==> component_order(
            Component::Normal(x),
            Component::Normal(y),
        ) == Order::Same,
        k == x.len() && k < y.len() ==> component_order(Component::Normal(x), Component::Normal(y))
            == Order::Before,
        k == y.len() && k < x.len() ==> component_order(Component::Normal(x), Component::Normal(y))
            == Order::After,
        k < x.len() && k < y.len() && x[k] < y[k] ==> component_order(
            Component::Normal(x),
            Component::Normal(y),
        ) == Order::Before,
        k < x.len() && k < y.len() && x[k] > y[k] ==> component_order(
            Component::Normal(x),
            Component::Normal(y),
        ) == Order::After,
{
    let order = |p: u8, q: u8| byte_order(p, q);
    assert forall|i: int| 0 <= i < k implies order(#[trigger] x[i], y[i]) == Order::Same by {
        assert(x[i] == x.take(k)[i]);
        assert(y[i] == y.take(k)[i]);
    }
    law_first_difference_decides(order, x, y, k);
}

/// Paths stand to each other as the first components in which they differ, and a path whose
/// components begin those of another comes before it.
pub proof fn law_order_of_paths(a: Seq<u8>, b: Seq<u8>, k: int)
    requires
        0 <= k <= components(a).len(),
        k <= components(b).len(),
        forall|i: int|
            0 <= i < k ==> component_order(#[trigger] components(a)[i], components(b)[i])
                == Order::Same,
    ensures
        k == components(a).len() && k == components(b).len() ==> path_order(a, b) == Order::Same,
        k == components(a).len() && k < components(b).len() ==> path_order(a, b) == Order::Before,
        k == components(b).len() && k < components(a).len() ==> path_order(a, b) == Order::After,
        k < components(a).len() && k < components(b).len() && component_order(
            components(a)[k],
            components(b)[k],
        ) != Order::Same ==> path_order(a, b) == component_order(
            components(a)[k],
            components(b)[k],
        ),
{
    let order = |p: Component<Seq<u8>>, q: Component<Seq<u8>>| component_order(p, q);
    assert forall|i: int| 0 <= i < k implies order(
        #[trigger] components(a)[i],
        components(b)[i],
    ) == Order::Same by {}
    law_first_difference_decides(order, components(a), components(b), k);
}

/// Lists of paths stand to each other as the first paths in which they differ, and a list that
/// begins another comes before it.
pub proof fn law_order_of_path_lists(a: Seq<Seq<u8>>, b: Seq<Seq<u8>>, k: int)
    requires
        0 <= k <= a.len(),
        k <= b.len(),
        forall|i: int| 0 <= i < k ==> path_order(#[trigger] a[i], b[i]) == Order::Same,
    ensures
        k == a.len() && k == b.len() ==> paths_order(a, b) == Order::Same,
        k == a.len() && k < b.len() ==> paths_order(a, b) == Order::Before,
        k == b.len() && k < a.len() ==> paths_order(a, b) == Order::After,
        k < a.len() && k < b.len() && path_order(a[k], b[k]) != Order::Same ==> paths_order(a, b)
            == path_order(a[k], b[k]),
{
    let order = |p: Seq<u8>, q: Seq<u8>| path_order(p, q);
    assert forall|i: int| 0 <= i < k implies order(#[trigger] a[i], b[i]) == Order::Same by {}
    law_first_difference_decides(order, a, b, k);
}

} // verus!
