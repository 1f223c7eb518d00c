//! The tree handed to assistive technology.
//!
//! Every frame the interactive regions and the free-standing texts are
//! turned into a flat tree under a window root, read in document order
//! (the order the view was written in, not the front-to-back order of hit
//! testing). A region is listed only if it means something to a user: it
//! has a role or a label, takes focus, has a click handler, or contains
//! text; plain layout boxes would fill the reading with "group, group,
//! group". Its name is its explicit label, or else the texts inside it
//! joined by spaces. Headings carry their level counted from zero (ARIA
//! counts from one). A disabled region offers no action; otherwise a
//! clickable one offers click and a focusable one offers focus. Texts that
//! belong to no region are listed as labels of their own, in their place
//! in the document. Two regions with the same element number never produce
//! two children with the same node id (assistive-technology bridges reject
//! such a tree and would take the window down).
//!
//! Which texts fall inside which region, and the geometry, are worked out
//! by the caller in floating point; the accessibility toolkit's own types
//! are built from the result by the platform code.

use vstd::prelude::*;

verus! {

/// Node id of the window root.
pub const ROOT: u64 = 0;

/// First node id of the free-standing texts (region ids are element number
/// plus one, far below this).
pub const TEXT_ID_BASE: u64 = 4294967296;

/// The semantic roles an element can declare.
#[derive(Clone, Copy, Debug, PartialEq, Eq, Structural)]
pub enum Role {
    Group,
    Button,
    Link,
    TextInput,
    TextArea,
    Password,
    Checkbox,
    Radio,
    Slider,
    ComboBox,
    Heading,
    Text,
    Image,
    List,
    ListItem,
    TabList,
    Tab,
    Dialog,
    ProgressBar,
    Separator,
    Table,
    Row,
    Cell,
    ColumnHeader,
    Tree,
    TreeItem,
}

/// The roles announced to assistive technology.
#[derive(Clone, Copy, Debug, PartialEq, Eq, Structural)]
pub enum AxRole {
    Window,
    Group,
    Button,
    Link,
    TextInput,
    MultilineTextInput,
    PasswordInput,
    CheckBox,
    RadioButton,
    Slider,
    ComboBox,
    Heading,
    Label,
    Image,
    List,
    ListItem,
    TabList,
    Tab,
    Dialog,
    ProgressIndicator,
    Splitter,
    Table,
    Row,
    Cell,
    ColumnHeader,
    Tree,
    TreeItem,
}

pub open spec fn ax_role_spec(role: Role) -> AxRole {
    match role {
        Role::Group => AxRole::Group,
        Role::Button => AxRole::Button,
        Role::Link => AxRole::Link,
        Role::TextInput => AxRole::TextInput,
        Role::TextArea => AxRole::MultilineTextInput,
        Role::Password => AxRole::PasswordInput,
        Role::Checkbox => AxRole::CheckBox,
        Role::Radio => AxRole::RadioButton,
        Role::Slider => AxRole::Slider,
        Role::ComboBox => AxRole::ComboBox,
        Role::Heading => AxRole::Heading,
        Role::Text => AxRole::Label,
        Role::Image => AxRole::Image,
        Role::List => AxRole::List,
        Role::ListItem => AxRole::ListItem,
        Role::TabList => AxRole::TabList,
        Role::Tab => AxRole::Tab,
        Role::Dialog => AxRole::Dialog,
        Role::ProgressBar => AxRole::ProgressIndicator,
        Role::Separator => AxRole::Splitter,
        Role::Table => AxRole::Table,
        Role::Row => AxRole::Row,
        Role::Cell => AxRole::Cell,
        Role::ColumnHeader => AxRole::ColumnHeader,
        Role::Tree => AxRole::Tree,
        Role::TreeItem => AxRole::TreeItem,
    }
}

/// No two declared roles are announced alike, and none is announced as
/// the window: assistive technology can tell every declared role apart
/// (a checkbox is never read as a radio button, nor a text area as a
/// one-line field).
pub proof fn lemma_roles_stay_apart(a: Role, b: Role)
    ensures
        a != b ==> ax_role_spec(a) != ax_role_spec(b),
        ax_role_spec(a) != AxRole::Window,
{
}

/// Each declared role is announced under its own name where assistive
/// technology has one: checkboxes as checkboxes, radio buttons as radio
/// buttons, text areas as multi-line inputs, passwords as password
/// inputs, plain text as labels, progress bars as progress indicators and
/// separators as splitters; every other role keeps its name.
pub proof fn lemma_roles_keep_their_names()
    ensures
        ax_role_spec(Role::Checkbox) == AxRole::CheckBox,
        ax_role_spec(Role::Radio) == AxRole::RadioButton,
        ax_role_spec(Role::TextArea) == AxRole::MultilineTextInput,
        ax_role_spec(Role::Password) == AxRole::PasswordInput,
        ax_role_spec(Role::Text) == AxRole::Label,
        ax_role_spec(Role::ProgressBar) == AxRole::ProgressIndicator,
        ax_role_spec(Role::Separator) == AxRole::Splitter,
        ax_role_spec(Role::Button) == AxRole::Button,
        ax_role_spec(Role::Heading) == AxRole::Heading,
        ax_role_spec(Role::Group) == AxRole::Group,
{
}

/// The announced role of a declared role.
pub fn ax_role(role: Role) -> (r: AxRole)
    ensures
        r == ax_role_spec(role),
{
    match role {
        Role::Group => AxRole::Group,
        Role::Button => AxRole::Button,
        Role::Link => AxRole::Link,
        Role::TextInput => AxRole::TextInput,
        Role::TextArea => AxRole::MultilineTextInput,
        Role::Password => AxRole::PasswordInput,
        Role::Checkbox => AxRole::CheckBox,
        Role::Radio => AxRole::RadioButton,
        Role::Slider => AxRole::Slider,
        Role::ComboBox => AxRole::ComboBox,
        Role::Heading => AxRole::Heading,
        Role::Text => AxRole::Label,
        Role::Image => AxRole::Image,
        Role::List => AxRole::List,
        Role::ListItem => AxRole::ListItem,
        Role::TabList => AxRole::TabList,
        Role::Tab => AxRole::Tab,
        Role::Dialog => AxRole::Dialog,
        Role::ProgressBar => AxRole::ProgressIndicator,
        Role::Separator => AxRole::Splitter,
        Role::Table => AxRole::Table,
        Role::Row => AxRole::Row,
        Role::Cell => AxRole::Cell,
        Role::ColumnHeader => AxRole::ColumnHeader,
        Role::Tree => AxRole::Tree,
        Role::TreeItem => AxRole::TreeItem,
    }
}

/// An interactive region of the frame, with the texts that lie inside it
/// (innermost region first; worked out by the caller).
pub struct A11yRegion {
    /// Depth-first element number (document order).
    pub element_index: usize,
    pub id: Option<String>,
    pub role: Option<Role>,
    pub label: Option<String>,
    /// ARIA heading level (counted from one).
    pub heading_level: Option<u8>,
    pub focusable: bool,
    pub has_click_handler: bool,
    /// Pressing it does something (the runtime's own notion of clickable).
    pub clickable: bool,
    pub disabled: bool,
    /// The texts inside it, in drawing order.
    pub texts: Vec<String>,
}

/// A text that lies in no region.
pub struct LooseText {
    pub element_index: usize,
    pub content: String,
}

/// One node of the tree.
pub struct A11yNode {
    pub id: u64,
    pub role: AxRole,
    pub label: Option<String>,
    /// Heading level counted from zero.
    pub level: Option<usize>,
    pub disabled: bool,
    /// Offers the click action.
    pub click: bool,
    /// Offers the focus action.
    pub focus: bool,
    pub children: Vec<u64>,
}

/// The tree for one frame.
pub struct A11yTree {
    /// Every node; the root comes last.
    pub nodes: Vec<A11yNode>,
    /// The node that has focus (the root when nothing does).
    pub focus: u64,
    /// Node id → element id, for turning requests from assistive technology
    /// back into element ids.
    pub ids: Vec<(u64, String)>,
    /// The element number of each of the root's children, in order.
    pub child_order: Vec<usize>,
}

pub open spec fn views(v: Seq<String>) -> Seq<Seq<char>> {
    v.map_values(|s: String| s@)
}

pub open spec fn opt_view(o: Option<String>) -> Option<Seq<char>> {
    match o {
        Some(s) => Some(s@),
        None => None,
    }
}

/// The parts joined by single spaces.
pub open spec fn join_spaces(parts: Seq<Seq<char>>) -> Seq<char>
    decreases parts.len(),
{
    if parts.len() == 0 {
        Seq::empty()
    } else if parts.len() == 1 {
        parts[0]
    } else {
        join_spaces(parts.drop_last()) + seq![' '] + parts.last()
    }
}

pub open spec fn region_text(r: A11yRegion) -> Seq<char> {
    join_spaces(views(r.texts@))
}

#[verifier::opaque]
pub open spec fn meaningful(r: A11yRegion) -> bool {
    r.role is Some || r.label is Some || r.focusable || r.has_click_handler || region_text(r).len() > 0
}

/// The name: the explicit label, else the inner text; none when empty.
pub open spec fn region_label(r: A11yRegion) -> Option<Seq<char>> {
    let l = match r.label {
        Some(s) => s@,
        None => region_text(r),
    };
    if l.len() > 0 {
        Some(l)
    } else {
        None
    }
}

pub open spec fn region_level(r: A11yRegion) -> Option<usize> {
    match r.heading_level {
        Some(l) => Some(
            (if l < 1 {
                0
            } else {
                l - 1
            }) as usize,
        ),
        None => None,
    }
}

pub open spec fn region_node_id(r: A11yRegion) -> u64 {
    (r.element_index + 1) as u64
}

/// `n` is the node that region `r` produces.
#[verifier::opaque]
pub open spec fn is_region_node(n: A11yNode, r: A11yRegion) -> bool {
    &&& n.id == region_node_id(r)
    &&& n.role == match r.role {
        Some(x) => ax_role_spec(x),
        None => AxRole::Group,
    }
    &&& opt_view(n.label) == region_label(r)
    &&& n.level == region_level(r)
    &&& n.disabled == r.disabled
    &&& n.click == (!r.disabled && r.clickable)
    &&& n.focus == (!r.disabled && r.focusable)
    &&& n.children@.len() == 0
}

/// `n` is the label node of free-standing text number `i`.
pub open spec fn is_text_node(n: A11yNode, i: int, t: LooseText) -> bool {
    &&& n.id == TEXT_ID_BASE + i
    &&& n.role == AxRole::Label
    &&& opt_view(n.label) == Some(t.content@)
    &&& n.level is None
    &&& !n.disabled && !n.click && !n.focus
    &&& n.children@.len() == 0
}

/// The texts joined by spaces.
pub fn join_texts(parts: &Vec<String>) -> (s: String)
    ensures
        s@ == join_spaces(views(parts@)),
{
    let mut s = String::new();
    let mut i: usize = 0;
    proof {
        reveal_strlit(" ");
        assert(views(parts@.take(0)) =~= Seq::<Seq<char>>::empty());
    }
    while i < parts.len()
        invariant
            i <= parts@.len(),
            s@ == join_spaces(views(parts@.take(i as int))),
            " "@ == seq![' '],
        decreases parts@.len() - i,
    {
        let ghost prev = views(parts@.take(i as int));
        assert(views(parts@.take((i + 1) as int)) =~= prev.push(parts@[i as int]@));
        assert(prev.push(parts@[i as int]@).drop_last() =~= prev);
        if i > 0 {
            s.append(" ");
        }
        s.append(parts[i].as_str());
        i += 1;
    }
    assert(parts@.take(parts@.len() as int) =~= parts@);
    s
}

/// The node of region `r`; none when the region means nothing to a user.
pub fn region_node(r: &A11yRegion) -> (n: Option<A11yNode>)
    requires
        r.element_index < u64::MAX,
    ensures
        match n {
            Some(node) => meaningful(*r) && is_region_node(node, *r) && node.id == region_node_id(*r),
            None => !meaningful(*r),
        },
{
    proof {
        reveal(meaningful);
        reveal(is_region_node);
    }
    let text = join_texts(&r.texts);
    let has_text = !text.as_str().is_empty();
    if !(r.role.is_some() || r.label.is_some() || r.focusable || r.has_click_handler || has_text) {
        return None;
    }
    let role = match r.role {
        Some(x) => ax_role(x),
        None => AxRole::Group,
    };
    let name = match &r.label {
        Some(l) => l.clone(),
        None => text,
    };
    let label = if name.as_str().is_empty() {
        None
    } else {
        Some(name)
    };
    let level = match r.heading_level {
        Some(l) => Some(
            (if l < 1 {
                0
            } else {
                l - 1
            }) as usize,
        ),
        None => None,
    };
    Some(
        A11yNode {
            id: r.element_index as u64 + 1,
            role,
            label,
            level,
            disabled: r.disabled,
            click: !r.disabled && r.clickable,
            focus: !r.disabled && r.focusable,
            children: Vec::new(),
        },
    )
}

/// `out` lists each of the positions `0..n` exactly once.
pub open spec fn lists_positions(out: Seq<usize>, n: int) -> bool {
    &&& out.len() == n
    &&& forall|c: int| 0 <= c < out.len() ==> #[trigger] out[c] < n
    &&& forall|a: int, b: int| 0 <= a < b < out.len() ==> #[trigger] out[a] != #[trigger] out[b]
    &&& forall|k: usize| k < n ==> #[trigger] out.contains(k)
}

/// `out` is ordered by the keys of its positions, and positions with equal
/// keys keep their order.
pub open spec fn ordered_by(out: Seq<usize>, keys: Seq<usize>) -> bool {
    &&& forall|a: int, b: int|
        0 <= a < b < out.len() ==> keys[#[trigger] out[a] as int] <= keys[#[trigger] out[b] as int]
    &&& forall|a: int, b: int|
        0 <= a < b < out.len() && keys[#[trigger] out[a] as int] == keys[#[trigger] out[b] as int] ==> out[a] < out[b]
}

proof fn lemma_insert_in_order(before: Seq<usize>, keys: Seq<usize>, p: int, i: usize)
    requires
        i < keys.len(),
        0 <= p <= before.len(),
        lists_positions(before, i as int),
        ordered_by(before, keys),
        p == 0 || keys[before[p - 1] as int] <= keys[i as int],
        forall|m: int| p <= m < before.len() ==> keys[#[trigger] before[m] as int] > keys[i as int],
    ensures
        lists_positions(before.insert(p, i), i + 1),
        ordered_by(before.insert(p, i), keys),
{
    let out = before.insert(p, i);
    assert forall|c: int| 0 <= c < out.len() implies #[trigger] out[c] < i + 1 by {
        if c < p {
            assert(out[c] == before[c]);
        } else if c > p {
            assert(out[c] == before[c - 1]);
        }
    }
    assert forall|a: int, b: int| 0 <= a < b < out.len() implies #[trigger] out[a] != #[trigger] out[b] by {
        if a < p && b < p {
            assert(out[a] == before[a] && out[b] == before[b]);
        } else if a < p && b == p {
            assert(out[a] == before[a]);
        } else if a < p {
            assert(out[a] == before[a] && out[b] == before[b - 1]);
        } else if a == p {
            assert(out[b] == before[b - 1]);
        } else {
            assert(out[a] == before[a - 1] && out[b] == before[b - 1]);
        }
    }
    assert forall|k: usize| k < i + 1 implies #[trigger] out.contains(k) by {
        if k == i {
            assert(out[p] == k);
        } else {
            assert(before.contains(k));
            let c0 = choose|c: int| 0 <= c < before.len() && #[trigger] before[c] == k;
            if c0 < p {
                assert(out[c0] == k);
            } else {
                assert(out[c0 + 1] == k);
            }
        }
    }
    assert forall|a: int, b: int| 0 <= a < b < out.len() implies keys[#[trigger] out[a] as int]
        <= keys[#[trigger] out[b] as int] by {
        if a < p && b < p {
            assert(out[a] == before[a] && out[b] == before[b]);
        } else if a < p && b == p {
            assert(out[a] == before[a]);
            if a < p - 1 {
                assert(keys[before[a] as int] <= keys[before[p - 1] as int]);
            }
        } else if a < p {
            assert(out[a] == before[a] && out[b] == before[b - 1]);
        } else if a == p {
            assert(out[b] == before[b - 1]);
        } else {
            assert(out[a] == before[a - 1] && out[b] == before[b - 1]);
        }
    }
    assert forall|a: int, b: int|
        0 <= a < b < out.len() && keys[#[trigger] out[a] as int] == keys[#[trigger] out[b] as int] implies out[a]
            < out[b] by {
        if a < p && b < p {
            assert(out[a] == before[a] && out[b] == before[b]);
        } else if a < p && b == p {
            assert(out[a] == before[a]);
        } else if a < p {
            assert(out[a] == before[a] && out[b] == before[b - 1]);
        } else if a == p {
            assert(out[b] == before[b - 1]);
        } else {
            assert(out[a] == before[a - 1] && out[b] == before[b - 1]);
        }
    }
}

/// Positions `0..keys.len()` ordered by their keys; positions with equal
/// keys keep their order.
fn order_by_key(keys: &Vec<usize>) -> (out: Vec<usize>)
    ensures
        lists_positions(out@, keys@.len() as int),
        ordered_by(out@, keys@),
{
    let mut out: Vec<usize> = Vec::new();
    let mut i: usize = 0;
    while i < keys.len()
        invariant
            i <= keys@.len(),
            lists_positions(out@, i as int),
            ordered_by(out@, keys@),
        decreases keys@.len() - i,
    {
        let ki = keys[i];
        let mut p: usize = out.len();
        while p > 0 && keys[out[p - 1]] > ki
            invariant
                p <= out@.len(),
                i < keys@.len(),
                ki == keys@[i as int],
                lists_positions(out@, i as int),
                forall|m: int| p <= m < out@.len() ==> keys@[#[trigger] out@[m] as int] > ki,
            decreases p,
        {
            p -= 1;
        }
        proof {
            lemma_insert_in_order(out@, keys@, p as int, i);
        }
        out.insert(p, i);
        i += 1;
    }
    out
}

/// `n` is the node of a meaningful region with element number `e`.
pub open spec fn from_region(n: A11yNode, e: usize, regions: Seq<A11yRegion>) -> bool {
    exists|j: int|
        0 <= j < regions.len() && meaningful(regions[j]) && #[trigger] is_region_node(n, regions[j])
            && regions[j].element_index == e
}

/// `n` is the label node of a free-standing text with element number `e`.
pub open spec fn from_text(n: A11yNode, e: usize, loose: Seq<LooseText>) -> bool {
    exists|i: int| 0 <= i < loose.len() && #[trigger] is_text_node(n, i, loose[i]) && loose[i].element_index == e
}

/// `n` comes from a meaningful region or a free-standing text with element
/// number `e`.
pub open spec fn node_source(n: A11yNode, e: usize, regions: Seq<A11yRegion>, loose: Seq<LooseText>) -> bool {
    from_region(n, e, regions) || from_text(n, e, loose)
}

/// Among `nodes` there is one with id `id` that comes from a meaningful
/// region or a free-standing text with element number `e`.
pub open spec fn child_from_nodes(
    nodes: Seq<A11yNode>,
    id: u64,
    e: usize,
    regions: Seq<A11yRegion>,
    loose: Seq<LooseText>,
) -> bool {
    exists|k: int| 0 <= k < nodes.len() && nodes[k].id == id && node_source(#[trigger] nodes[k], e, regions, loose)
}

/// Free-standing text `t`, number `i`, has its label node among `nodes`,
/// and that node is one of `children`.
pub open spec fn text_read(nodes: Seq<A11yNode>, children: Seq<u64>, i: int, t: LooseText) -> bool {
    exists|k: int| 0 <= k < nodes.len() && #[trigger] is_text_node(nodes[k], i, t) && children.contains(nodes[k].id)
}

pub open spec fn focused_is(id: Option<String>, focused: Option<Seq<char>>) -> bool {
    match (id, focused) {
        (Some(s), Some(f)) => s@ == f,
        _ => false,
    }
}

pub open spec fn str_view(o: Option<&str>) -> Option<Seq<char>> {
    match o {
        Some(f) => Some(f@),
        None => None,
    }
}

/// Index of the node with id `id` among `nodes`, if any.
fn find_node(nodes: &Vec<A11yNode>, id: u64) -> (k: Option<usize>)
    ensures
        match k {
            Some(k) => k < nodes@.len() && nodes@[k as int].id == id,
            None => forall|m: int| 0 <= m < nodes@.len() ==> nodes@[m].id != id,
        },
{
    let mut m: usize = 0;
    while m < nodes.len()
        invariant
            m <= nodes@.len(),
            forall|q: int| 0 <= q < m ==> nodes@[q].id != id,
        decreases nodes@.len() - m,
    {
        if nodes[m].id == id {
            return Some(m);
        }
        m += 1;
    }
    None
}

/// Index of the entry with key `key` among `ids`, if any.
fn find_key(ids: &Vec<(u64, String)>, key: u64) -> (k: Option<usize>)
    ensures
        match k {
            Some(k) => k < ids@.len() && ids@[k as int].0 == key,
            None => forall|m: int| 0 <= m < ids@.len() ==> ids@[m].0 != key,
        },
{
    let mut m: usize = 0;
    while m < ids.len()
        invariant
            m <= ids@.len(),
            forall|q: int| 0 <= q < m ==> ids@[q].0 != key,
        decreases ids@.len() - m,
    {
        if ids[m].0 == key {
            return Some(m);
        }
        m += 1;
    }
    None
}

/// `entry` pairs the node id of a meaningful region with that region's
/// element id.
pub open spec fn id_entry_ok(entry: (u64, String), regions: Seq<A11yRegion>) -> bool {
    exists|j: int|
        0 <= j < regions.len() && meaningful(regions[j]) && region_node_id(#[trigger] regions[j]) == entry.0
            && opt_view(regions[j].id) == Some(entry.1@)
}

/// An action requested by assistive technology, as far as the runtime
/// cares.
#[derive(Clone, Copy, Debug, PartialEq, Eq, Structural)]
pub enum AxAction {
    Click,
    Focus,
    /// Any other action (scrolling, value changes, ...).
    Other,
}

/// A request from assistive technology, turned back into an element id.
#[derive(Clone, Debug, PartialEq, Eq)]
pub enum Request {
    /// The element was pressed.
    Click(String),
    /// Focus was moved to the element.
    Focus(String),
}

/// The element id that the table gives for node `node` (its first entry).
pub open spec fn id_of(ids: Seq<(u64, String)>, node: u64) -> Option<Seq<char>>
    decreases ids.len(),
{
    if ids.len() == 0 {
        None
    } else if ids[0].0 == node {
        Some(ids[0].1@)
    } else {
        id_of(ids.drop_first(), node)
    }
}

/// Turns a request for node `node` into one for its element: clicks and
/// focus moves on nodes in the table come back with the element id;
/// anything else is dropped.
pub fn request_for(ids: &Vec<(u64, String)>, node: u64, action: AxAction) -> (r: Option<Request>)
    ensures
        match (id_of(ids@, node), action) {
            (Some(id), AxAction::Click) => r matches Some(Request::Click(s)) && s@ == id,
            (Some(id), AxAction::Focus) => r matches Some(Request::Focus(s)) && s@ == id,
            _ => r is None,
        },
{
    let mut i: usize = 0;
    assert(ids@.skip(0) =~= ids@);
    while i < ids.len()
        invariant
            i <= ids@.len(),
            id_of(ids@, node) == id_of(ids@.skip(i as int), node),
        decreases ids@.len() - i,
    {
        assert(ids@.skip(i as int).drop_first() =~= ids@.skip(i + 1));
        if ids[i].0 == node {
            let id = ids[i].1.clone();
            return match action {
                AxAction::Click => Some(Request::Click(id)),
                AxAction::Focus => Some(Request::Focus(id)),
                AxAction::Other => None,
            };
        }
        i += 1;
    }
    None
}

/// What a request says: the action and the element id.
pub open spec fn request_view(r: Request) -> (AxAction, Seq<char>) {
    match r {
        Request::Click(s) => (AxAction::Click, s@),
        Request::Focus(s) => (AxAction::Focus, s@),
    }
}

/// The requests that `raw` (node, action pairs, oldest first) turn into, in
/// order: those on nodes in the table with a click or focus action.
pub open spec fn requests_spec(ids: Seq<(u64, String)>, raw: Seq<(u64, AxAction)>) -> Seq<(AxAction, Seq<char>)>
    decreases raw.len(),
{
    if raw.len() == 0 {
        Seq::empty()
    } else {
        let rest = requests_spec(ids, raw.drop_last());
        let (node, action) = raw.last();
        match id_of(ids, node) {
            Some(id) => if action == AxAction::Other {
                rest
            } else {
                rest.push((action, id))
            },
            None => rest,
        }
    }
}

/// Turns the requests queued since the last frame into element requests,
/// in order, dropping those that name no element or ask for something
/// else.
pub fn requests_for(ids: &Vec<(u64, String)>, raw: &Vec<(u64, AxAction)>) -> (out: Vec<Request>)
    ensures
        out@.map_values(|r: Request| request_view(r)) == requests_spec(ids@, raw@),
{
    let mut out: Vec<Request> = Vec::new();
    let mut i: usize = 0;
    while i < raw.len()
        invariant
            i <= raw@.len(),
            out@.map_values(|r: Request| request_view(r)) == requests_spec(ids@, raw@.take(i as int)),
        decreases raw@.len() - i,
    {
        let ghost before = out@;
        assert(raw@.take(i + 1).drop_last() =~= raw@.take(i as int));
        let (node, action) = raw[i];
        match request_for(ids, node, action) {
            Some(r) => {
                out.push(r);
                assert(out@.map_values(|r: Request| request_view(r)) =~= before.map_values(
                    |r: Request| request_view(r),
                ).push(request_view(r)));
            },
            None => {},
        }
        i += 1;
    }
    assert(raw@.take(raw@.len() as int) =~= raw@);
    out
}

/// A table with distinct node ids gives each entry's own element id: a
/// click or focus request on a node of the tree names the element that
/// node stands for.
pub proof fn lemma_requests_name_their_element(ids: Seq<(u64, String)>, e: int)
    requires
        0 <= e < ids.len(),
        forall|a: int, b: int| 0 <= a < b < ids.len() ==> #[trigger] ids[a].0 != #[trigger] ids[b].0,
    ensures
        id_of(ids, ids[e].0) == Some(ids[e].1@),
    decreases e,
{
    if e > 0 {
        let rest = ids.drop_first();
        assert(ids[0].0 != ids[e].0);
        assert(rest[e - 1] == ids[e]);
        assert forall|a: int, b: int| 0 <= a < b < rest.len() implies #[trigger] rest[a].0 != #[trigger] rest[b].0 by {
            assert(rest[a] == ids[a + 1] && rest[b] == ids[b + 1]);
        }
        lemma_requests_name_their_element(rest, e - 1);
    }
}

/// The document order of the regions: their positions ordered by element
/// number.
fn document_order(regions: &Vec<A11yRegion>) -> (order: Vec<usize>)
    ensures
        lists_positions(order@, regions@.len() as int),
        forall|a: int, b: int|
            0 <= a < b < order@.len() ==> regions@[#[trigger] order@[a] as int].element_index
                <= regions@[#[trigger] order@[b] as int].element_index,
{
    let mut keys: Vec<usize> = Vec::new();
    let mut j: usize = 0;
    while j < regions.len()
        invariant
            j <= regions@.len(),
            keys@.len() == j,
            forall|q: int| 0 <= q < j ==> #[trigger] keys@[q] == regions@[q].element_index,
        decreases regions@.len() - j,
    {
        keys.push(regions[j].element_index);
        j += 1;
    }
    let order = order_by_key(&keys);
    proof {
        assert forall|a: int, b: int| 0 <= a < b < order@.len() implies regions@[#[trigger] order@[a] as int].element_index
            <= regions@[#[trigger] order@[b] as int].element_index by {
            assert(keys@[order@[a] as int] <= keys@[order@[b] as int]);
        }
    }
    order
}

/// Adds the node of region `r` unless it is not meaningful or a node with
/// its id is already there; returns where its node stands.
fn add_region_node(r: &A11yRegion, nodes: &mut Vec<A11yNode>, elems: &mut Vec<usize>) -> (w: Ghost<int>)
    requires
        r.element_index < u64::MAX,
        old(nodes)@.len() == old(elems)@.len(),
        forall|a: int, b: int|
            0 <= a < b < old(nodes)@.len() ==> #[trigger] old(nodes)@[a].id != #[trigger] old(nodes)@[b].id,
    ensures
        final(nodes)@.len() == final(elems)@.len(),
        forall|k: int|
            0 <= k < old(nodes)@.len() ==> #[trigger] final(nodes)@[k] == old(nodes)@[k] && final(elems)@[k]
                == old(elems)@[k],
        final(nodes)@.len() == old(nodes)@.len() || {
            &&& final(nodes)@.len() == old(nodes)@.len() + 1
            &&& meaningful(*r)
            &&& is_region_node(final(nodes)@[old(nodes)@.len() as int], *r)
            &&& final(elems)@[old(nodes)@.len() as int] == r.element_index
        },
        forall|a: int, b: int|
            0 <= a < b < final(nodes)@.len() ==> #[trigger] final(nodes)@[a].id != #[trigger] final(nodes)@[b].id,
        meaningful(*r) ==> 0 <= w@ < final(nodes)@.len() && final(nodes)@[w@].id == region_node_id(*r),
{
    let ghost old_nodes = nodes@;
    match region_node(r) {
        None => Ghost(0),
        Some(node) => {
            let node_id = node.id;
            match find_node(nodes, node_id) {
                Some(k) => Ghost(k as int),
                None => {
                    elems.push(r.element_index);
                    nodes.push(node);
                    proof {
                        assert forall|a: int, b: int| 0 <= a < b < nodes@.len() implies #[trigger] nodes@[a].id
                            != #[trigger] nodes@[b].id by {
                            assert(nodes@[a] == old_nodes[a]);
                            if b < old_nodes.len() {
                                assert(nodes@[b] == old_nodes[b]);
                            }
                        }
                    }
                    Ghost(old_nodes.len() as int)
                },
            }
        },
    }
}

/// The nodes of the meaningful regions, visited in `order`; a region whose
/// node id is already taken adds nothing. Also gives the element number of
/// each node.
fn region_node_list(regions: &Vec<A11yRegion>, order: &Vec<usize>) -> (r: (Vec<A11yNode>, Vec<usize>))
    requires
        forall|j: int| 0 <= j < regions@.len() ==> #[trigger] regions@[j].element_index < u64::MAX,
        lists_positions(order@, regions@.len() as int),
    ensures
        r.0@.len() == r.1@.len(),
        forall|k: int| 0 <= k < r.0@.len() ==> #[trigger] from_region(r.0@[k], r.1@[k], regions@),
        forall|a: int, b: int| 0 <= a < b < r.0@.len() ==> #[trigger] r.0@[a].id != #[trigger] r.0@[b].id,
        forall|j: int|
            0 <= j < regions@.len() && meaningful(#[trigger] regions@[j]) ==> exists|k: int|
                0 <= k < r.0@.len() && r.0@[k].id == region_node_id(regions@[j]),
{
    let mut nodes: Vec<A11yNode> = Vec::new();
    let mut elems: Vec<usize> = Vec::new();
    // the region behind each node, and where each visited region ended up
    let ghost mut src: Seq<int> = Seq::empty();
    let ghost mut at: Seq<int> = Seq::empty();
    let mut p: usize = 0;
    while p < order.len()
        invariant
            p <= order@.len(),
            lists_positions(order@, regions@.len() as int),
            forall|q: int| 0 <= q < regions@.len() ==> #[trigger] regions@[q].element_index < u64::MAX,
            nodes@.len() == elems@.len(),
            src.len() == nodes@.len(),
            forall|k: int|
                #![trigger src[k]]
                0 <= k < nodes@.len() ==> {
                    &&& 0 <= src[k] < regions@.len()
                    &&& meaningful(regions@[src[k]])
                    &&& is_region_node(nodes@[k], regions@[src[k]])
                    &&& elems@[k] == regions@[src[k]].element_index
                },
            forall|a: int, b: int| 0 <= a < b < nodes@.len() ==> #[trigger] nodes@[a].id != #[trigger] nodes@[b].id,
            at.len() == p,
            forall|q: int|
                #![trigger at[q]]
                0 <= q < p && meaningful(regions@[order@[q] as int]) ==> {
                    &&& 0 <= at[q] < nodes@.len()
                    &&& nodes@[at[q]].id == region_node_id(regions@[order@[q] as int])
                },
        decreases order@.len() - p,
    {
        let jj = order[p];
        let ghost old_nodes = nodes@;
        let ghost old_src = src;
        let here = add_region_node(&regions[jj], &mut nodes, &mut elems);
        proof {
            src = if nodes@.len() != old_nodes.len() {
                old_src.push(jj as int)
            } else {
                old_src
            };
            assert forall|k: int| #![trigger src[k]] 0 <= k < nodes@.len() implies 0 <= src[k] < regions@.len()
                && meaningful(regions@[src[k]]) && is_region_node(nodes@[k], regions@[src[k]])
                && elems@[k] == regions@[src[k]].element_index by {
                if k < old_nodes.len() {
                    assert(nodes@[k] == old_nodes[k]);
                    assert(src[k] == old_src[k]);
                }
            }
            at = at.push(here@);
            assert forall|q: int|
                #![trigger at[q]]
                0 <= q < p + 1 && meaningful(regions@[order@[q] as int]) implies {
                    &&& 0 <= at[q] < nodes@.len()
                    &&& nodes@[at[q]].id == region_node_id(regions@[order@[q] as int])
                } by {
                if q < p {
                    assert(nodes@[at[q]] == old_nodes[at[q]]);
                }
            }
        }
        p += 1;
    }
    proof {
        assert forall|j: int| 0 <= j < regions@.len() && meaningful(#[trigger] regions@[j]) implies exists|k: int|
            0 <= k < nodes@.len() && nodes@[k].id == region_node_id(regions@[j]) by {
            assert(order@.contains(j as usize));
            let q = choose|q: int| 0 <= q < order@.len() && #[trigger] order@[q] == j as usize;
            assert(0 <= at[q] < nodes@.len());
        }
        assert forall|k: int| 0 <= k < nodes@.len() implies #[trigger] from_region(nodes@[k], elems@[k], regions@) by {
            assert(is_region_node(nodes@[k], regions@[src[k]]));
        }
    }
    (nodes, elems)
}

/// The node id → element id table: one entry per node id of a meaningful
/// region with an element id (the last such region visited in `order`
/// wins).
fn id_table(regions: &Vec<A11yRegion>, order: &Vec<usize>) -> (ids: Vec<(u64, String)>)
    requires
        forall|j: int| 0 <= j < regions@.len() ==> #[trigger] regions@[j].element_index < u64::MAX,
        lists_positions(order@, regions@.len() as int),
    ensures
        forall|e: int| 0 <= e < ids@.len() ==> id_entry_ok(#[trigger] ids@[e], regions@),
        forall|a: int, b: int| 0 <= a < b < ids@.len() ==> #[trigger] ids@[a].0 != #[trigger] ids@[b].0,
        forall|j: int|
            0 <= j < regions@.len() && meaningful(#[trigger] regions@[j]) && regions@[j].id is Some ==> exists|e: int|
                0 <= e < ids@.len() && ids@[e].0 == region_node_id(regions@[j]),
{
    let mut ids: Vec<(u64, String)> = Vec::new();
    let ghost mut iat: Seq<int> = Seq::empty();
    let mut p: usize = 0;
    while p < order.len()
        invariant
            p <= order@.len(),
            lists_positions(order@, regions@.len() as int),
            forall|q: int| 0 <= q < regions@.len() ==> #[trigger] regions@[q].element_index < u64::MAX,
            forall|e: int| 0 <= e < ids@.len() ==> id_entry_ok(#[trigger] ids@[e], regions@),
            forall|a: int, b: int| 0 <= a < b < ids@.len() ==> #[trigger] ids@[a].0 != #[trigger] ids@[b].0,
            iat.len() == p,
            forall|q: int|
                #![trigger iat[q]]
                0 <= q < p && meaningful(regions@[order@[q] as int]) && regions@[order@[q] as int].id is Some ==> {
                    &&& 0 <= iat[q] < ids@.len()
                    &&& ids@[iat[q]].0 == region_node_id(regions@[order@[q] as int])
                },
        decreases order@.len() - p,
    {
        let jj = order[p];
        let ghost old_ids = ids@;
        let ghost mut ihere: int = 0;
        let r = &regions[jj];
        if let Some(node) = region_node(r) {
            if let Some(id) = &r.id {
                let node_id = node.id;
                let entry = (node_id, id.clone());
                proof {
                    assert(id_entry_ok(entry, regions@)) by {
                        assert(region_node_id(regions@[jj as int]) == entry.0);
                    }
                }
                match find_key(&ids, node_id) {
                    Some(e) => {
                        ids.set(e, entry);
                        proof {
                            ihere = e as int;
                            assert forall|f: int| 0 <= f < ids@.len() implies id_entry_ok(#[trigger] ids@[f], regions@) by {
                                if f != e {
                                    assert(ids@[f] == old_ids[f]);
                                }
                            }
                            assert forall|a: int, b: int| 0 <= a < b < ids@.len() implies #[trigger] ids@[a].0
                                != #[trigger] ids@[b].0 by {
                                assert(ids@[a].0 == old_ids[a].0 && ids@[b].0 == old_ids[b].0);
                            }
                        }
                    },
                    None => {
                        ids.push(entry);
                        proof {
                            ihere = old_ids.len() as int;
                            assert forall|f: int| 0 <= f < ids@.len() implies id_entry_ok(#[trigger] ids@[f], regions@) by {
                                if f < old_ids.len() {
                                    assert(ids@[f] == old_ids[f]);
                                }
                            }
                            assert forall|a: int, b: int| 0 <= a < b < ids@.len() implies #[trigger] ids@[a].0
                                != #[trigger] ids@[b].0 by {
                                assert(ids@[a] == old_ids[a]);
                                if b < old_ids.len() {
                                    assert(ids@[b] == old_ids[b]);
                                }
                            }
                        }
                    },
                }
            }
        }
        proof {
            iat = iat.push(ihere);
            assert forall|q: int|
                #![trigger iat[q]]
                0 <= q < p + 1 && meaningful(regions@[order@[q] as int]) && regions@[order@[q] as int].id is Some implies {
                    &&& 0 <= iat[q] < ids@.len()
                    &&& ids@[iat[q]].0 == region_node_id(regions@[order@[q] as int])
                } by {
                if q < p {
                    assert(ids@[iat[q]].0 == old_ids[iat[q]].0);
                }
            }
        }
        p += 1;
    }
    proof {
        assert forall|j: int|
            0 <= j < regions@.len() && meaningful(#[trigger] regions@[j]) && regions@[j].id is Some implies exists|e: int|
                0 <= e < ids@.len() && ids@[e].0 == region_node_id(regions@[j]) by {
            assert(order@.contains(j as usize));
            let q = choose|q: int| 0 <= q < order@.len() && #[trigger] order@[q] == j as usize;
            assert(0 <= iat[q] < ids@.len());
        }
    }
    ids
}

/// The node of the focused element: that of the last meaningful region in
/// `order` whose element id is `focused`, else the root.
fn focused_node(regions: &Vec<A11yRegion>, order: &Vec<usize>, focused_s: &Option<String>) -> (focus: u64)
    requires
        forall|j: int| 0 <= j < regions@.len() ==> #[trigger] regions@[j].element_index < u64::MAX,
        lists_positions(order@, regions@.len() as int),
    ensures
        focus == ROOT || exists|j: int|
            0 <= j < regions@.len() && meaningful(regions@[j]) && focused_is(regions@[j].id, opt_view(*focused_s))
                && focus == region_node_id(#[trigger] regions@[j]),
        (exists|j: int|
            0 <= j < regions@.len() && meaningful(#[trigger] regions@[j]) && focused_is(
                regions@[j].id,
                opt_view(*focused_s),
            )) ==> focus != ROOT,
{
    let ghost fview = opt_view(*focused_s);
    let mut focus: u64 = ROOT;
    let ghost mut fsrc: int = 0;
    let mut p: usize = 0;
    while p < order.len()
        invariant
            p <= order@.len(),
            lists_positions(order@, regions@.len() as int),
            forall|q: int| 0 <= q < regions@.len() ==> #[trigger] regions@[q].element_index < u64::MAX,
            fview == opt_view(*focused_s),
            focus == ROOT || {
                &&& 0 <= fsrc < regions@.len()
                &&& meaningful(regions@[fsrc])
                &&& focused_is(regions@[fsrc].id, fview)
                &&& focus == region_node_id(regions@[fsrc])
            },
            forall|q: int|
                #![trigger order@[q]]
                0 <= q < p && meaningful(regions@[order@[q] as int]) && focused_is(
                    regions@[order@[q] as int].id,
                    fview,
                ) ==> focus != ROOT,
        decreases order@.len() - p,
    {
        let jj = order[p];
        let r = &regions[jj];
        if let Some(node) = region_node(r) {
            if let Some(id) = &r.id {
                let is_focused = match focused_s {
                    Some(f) => *f == *id,
                    None => false,
                };
                if is_focused {
                    focus = node.id;
                    proof {
                        fsrc = jj as int;
                    }
                }
            }
        }
        p += 1;
    }
    proof {
        if exists|j: int|
            0 <= j < regions@.len() && meaningful(#[trigger] regions@[j]) && focused_is(regions@[j].id, fview) {
            let j = choose|j: int|
                0 <= j < regions@.len() && meaningful(#[trigger] regions@[j]) && focused_is(regions@[j].id, fview);
            assert(order@.contains(j as usize));
            let q = choose|q: int| 0 <= q < order@.len() && #[trigger] order@[q] == j as usize;
            assert(order@[q] == j);
        }
        if focus != ROOT {
            assert(focus == region_node_id(regions@[fsrc]));
        }
    }
    focus
}

/// A region's node carries the region's node id.
proof fn lemma_region_node_id(n: A11yNode, r: A11yRegion)
    requires
        is_region_node(n, r),
    ensures
        n.id == region_node_id(r),
{
    reveal(is_region_node);
}

/// The children are the nodes' ids in the order `pos`, and `child_order`
/// their element numbers: each child is a node, each node is a child, and
/// the element numbers never go down.
proof fn lemma_children_are_nodes(
    body: Seq<A11yNode>,
    elems: Seq<usize>,
    pos: Seq<usize>,
    children: Seq<u64>,
    child_order: Seq<usize>,
    regions: Seq<A11yRegion>,
    loose: Seq<LooseText>,
)
    requires
        body.len() == elems.len(),
        body.len() <= usize::MAX,
        lists_positions(pos, body.len() as int),
        ordered_by(pos, elems),
        children.len() == pos.len(),
        child_order.len() == pos.len(),
        forall|m: int|
            0 <= m < children.len() ==> #[trigger] children[m] == body[pos[m] as int].id && child_order[m]
                == elems[pos[m] as int],
        forall|k: int| 0 <= k < body.len() ==> node_source(#[trigger] body[k], elems[k], regions, loose),
    ensures
        forall|c: int|
            0 <= c < children.len() ==> #[trigger] child_from_nodes(body, children[c], child_order[c], regions, loose),
        forall|k: int| 0 <= k < body.len() ==> children.contains(#[trigger] body[k].id),
        forall|a: int, b: int| 0 <= a < b < child_order.len() ==> #[trigger] child_order[a] <= #[trigger] child_order[b],
{
    assert forall|c: int| 0 <= c < children.len() implies #[trigger] child_from_nodes(
        body,
        children[c],
        child_order[c],
        regions,
        loose,
    ) by {
        let k = pos[c] as int;
        assert(pos[c] < body.len());
        assert(node_source(body[k], elems[k], regions, loose));
    }
    assert forall|k: int| 0 <= k < body.len() implies children.contains(#[trigger] body[k].id) by {
        assert(pos.contains(k as usize));
        let c = choose|c: int| 0 <= c < pos.len() && #[trigger] pos[c] == k as usize;
        assert(children[c] == body[k].id);
    }
    assert forall|a: int, b: int| 0 <= a < b < child_order.len() implies #[trigger] child_order[a]
        <= #[trigger] child_order[b] by {
        assert(children[a] == body[pos[a] as int].id);
        assert(children[b] == body[pos[b] as int].id);
        assert(elems[pos[a] as int] <= elems[pos[b] as int]);
    }
}

/// Node ids stay apart while element numbers stay below the texts' ids:
/// the first `nr` nodes come from regions with distinct ids, the rest are
/// the texts' label nodes; so the children, listed once each, differ too.
proof fn lemma_ids_apart(
    body: Seq<A11yNode>,
    elems: Seq<usize>,
    nr: int,
    pos: Seq<usize>,
    children: Seq<u64>,
    regions: Seq<A11yRegion>,
    loose: Seq<LooseText>,
)
    requires
        0 <= nr <= body.len(),
        body.len() == elems.len(),
        body.len() == nr + loose.len(),
        lists_positions(pos, body.len() as int),
        children.len() == pos.len(),
        forall|m: int| 0 <= m < children.len() ==> #[trigger] children[m] == body[pos[m] as int].id,
        forall|k: int| 0 <= k < nr ==> #[trigger] from_region(body[k], elems[k], regions),
        forall|a: int, b: int| 0 <= a < b < nr ==> #[trigger] body[a].id != #[trigger] body[b].id,
        forall|t: int| 0 <= t < loose.len() ==> #[trigger] is_text_node(body[nr + t], t, loose[t]),
        forall|j: int| 0 <= j < regions.len() ==> #[trigger] regions[j].element_index + 1 < TEXT_ID_BASE,
    ensures
        forall|k: int| 0 <= k < body.len() ==> #[trigger] body[k].id != ROOT,
        forall|a: int, b: int| 0 <= a < b < body.len() ==> #[trigger] body[a].id != #[trigger] body[b].id,
        forall|a: int, b: int| 0 <= a < b < children.len() ==> #[trigger] children[a] != #[trigger] children[b],
{
    assert forall|k: int| 0 <= k < nr implies 1 <= #[trigger] body[k].id < TEXT_ID_BASE by {
        assert(from_region(body[k], elems[k], regions));
        let j = choose|j: int|
            0 <= j < regions.len() && meaningful(regions[j]) && #[trigger] is_region_node(body[k], regions[j])
                && regions[j].element_index == elems[k];
        lemma_region_node_id(body[k], regions[j]);
        assert(regions[j].element_index + 1 < TEXT_ID_BASE);
    }
    assert forall|k: int| nr <= k < body.len() implies #[trigger] body[k].id == TEXT_ID_BASE + (k - nr) by {
        assert(is_text_node(body[nr + (k - nr)], k - nr, loose[k - nr]));
    }
    assert forall|k: int| 0 <= k < body.len() implies #[trigger] body[k].id != ROOT by {
        if k < nr {
            assert(1 <= body[k].id);
        } else {
            assert(body[k].id == TEXT_ID_BASE + (k - nr));
        }
    }
    assert forall|a: int, b: int| 0 <= a < b < body.len() implies #[trigger] body[a].id != #[trigger] body[b].id by {
        if b < nr {
        } else if a < nr {
            assert(body[a].id < TEXT_ID_BASE);
            assert(body[b].id == TEXT_ID_BASE + (b - nr));
        } else {
            assert(body[a].id == TEXT_ID_BASE + (a - nr));
            assert(body[b].id == TEXT_ID_BASE + (b - nr));
        }
    }
    assert forall|a: int, b: int| 0 <= a < b < children.len() implies #[trigger] children[a]
        != #[trigger] children[b] by {
        assert(pos[a] != pos[b]);
        assert(pos[a] < body.len() && pos[b] < body.len());
        if pos[a] < pos[b] {
            assert(body[pos[a] as int].id != body[pos[b] as int].id);
        } else {
            assert(body[pos[b] as int].id != body[pos[a] as int].id);
        }
    }
}

/// Builds the tree for one frame: `regions` are the frame's interactive
/// regions (in any order), `loose` the texts in no region, `title` the
/// window's title and `focused` the id of the focused element.
pub fn tree_update(regions: &Vec<A11yRegion>, loose: &Vec<LooseText>, title: &str, focused: Option<&str>) -> (t:
    A11yTree)
    requires
        forall|j: int| 0 <= j < regions@.len() ==> #[trigger] regions@[j].element_index < u64::MAX,
        loose@.len() < u64::MAX - TEXT_ID_BASE,
    ensures
        t.nodes@.len() >= 1,
        // the root comes last
        t.nodes@.last().id == ROOT,
        t.nodes@.last().role == AxRole::Window,
        opt_view(t.nodes@.last().label) == Some(title@),
        t.nodes@.last().level is None,
        !t.nodes@.last().disabled && !t.nodes@.last().click && !t.nodes@.last().focus,
        // its children are the other nodes, each read once, in document order
        t.nodes@.last().children@.len() == t.nodes@.len() - 1,
        t.child_order@.len() == t.nodes@.len() - 1,
        forall|c: int|
            0 <= c < t.nodes@.len() - 1 ==> #[trigger] child_from_nodes(
                t.nodes@.drop_last(),
                t.nodes@.last().children@[c],
                t.child_order@[c],
                regions@,
                loose@,
            ),
        forall|k: int|
            0 <= k < t.nodes@.len() - 1 ==> t.nodes@.last().children@.contains(#[trigger] t.nodes@[k].id),
        forall|a: int, b: int|
            0 <= a < b < t.child_order@.len() ==> #[trigger] t.child_order@[a] <= #[trigger] t.child_order@[b],
        // every meaningful region and every free-standing text is read
        forall|j: int|
            0 <= j < regions@.len() && meaningful(#[trigger] regions@[j]) ==> t.nodes@.last().children@.contains(
                region_node_id(regions@[j]),
            ),
        forall|i: int|
            0 <= i < loose@.len() ==> #[trigger] text_read(
                t.nodes@.drop_last(),
                t.nodes@.last().children@,
                i,
                loose@[i],
            ),
        // no two nodes, and no two children, share an id while element
        // numbers stay below the texts' ids
        (forall|j: int| 0 <= j < regions@.len() ==> #[trigger] regions@[j].element_index + 1 < TEXT_ID_BASE) ==> {
            &&& forall|a: int, b: int|
                0 <= a < b < t.nodes@.len() ==> #[trigger] t.nodes@[a].id != #[trigger] t.nodes@[b].id
            &&& forall|a: int, b: int|
                0 <= a < b < t.nodes@.len() - 1 ==> #[trigger] t.nodes@.last().children@[a]
                    != #[trigger] t.nodes@.last().children@[b]
        },
        // focus
        t.focus == ROOT || exists|j: int|
            0 <= j < regions@.len() && meaningful(regions@[j]) && focused_is(regions@[j].id, str_view(focused))
                && t.focus == region_node_id(#[trigger] regions@[j]),
        (exists|j: int|
            0 <= j < regions@.len() && meaningful(#[trigger] regions@[j]) && focused_is(
                regions@[j].id,
                str_view(focused),
            )) ==> t.focus != ROOT,
        // node id → element id
        forall|e: int| 0 <= e < t.ids@.len() ==> id_entry_ok(#[trigger] t.ids@[e], regions@),
        forall|a: int, b: int| 0 <= a < b < t.ids@.len() ==> #[trigger] t.ids@[a].0 != #[trigger] t.ids@[b].0,
        forall|j: int|
            0 <= j < regions@.len() && meaningful(#[trigger] regions@[j]) && regions@[j].id is Some
                ==> exists|e: int| 0 <= e < t.ids@.len() && t.ids@[e].0 == region_node_id(regions@[j]),
{
    let focused_s: Option<String> = match focused {
        Some(f) => Some(f.to_owned()),
        None => None,
    };
    assert(opt_view(focused_s) == str_view(focused));
    let order = document_order(regions);
    let (mut nodes, mut elems) = region_node_list(regions, &order);
    let ids = id_table(regions, &order);
    let focus = focused_node(regions, &order, &focused_s);
    let ghost region_part = nodes@;
    let ghost region_elems = elems@;
    let nr = nodes.len();
    let mut i: usize = 0;
    while i < loose.len()
        invariant
            i <= loose@.len(),
            loose@.len() < u64::MAX - TEXT_ID_BASE,
            nr == region_part.len(),
            region_elems.len() == nr,
            nodes@.len() == elems@.len(),
            nodes@.len() == nr + i,
            forall|k: int| 0 <= k < nr ==> nodes@[k] == #[trigger] region_part[k] && elems@[k] == region_elems[k],
            forall|k: int| 0 <= k < nr ==> #[trigger] from_region(region_part[k], region_elems[k], regions@),
            forall|k: int|
                nr <= k < nodes@.len() ==> #[trigger] from_text(nodes@[k], elems@[k], loose@),
            forall|t: int| 0 <= t < i ==> #[trigger] is_text_node(nodes@[nr + t], t, loose@[t]),
        decreases loose@.len() - i,
    {
        let node = A11yNode {
            id: TEXT_ID_BASE + i as u64,
            role: AxRole::Label,
            label: Some(loose[i].content.clone()),
            level: None,
            disabled: false,
            click: false,
            focus: false,
            children: Vec::new(),
        };
        let ghost before = nodes@;
        let ghost before_elems = elems@;
        elems.push(loose[i].element_index);
        nodes.push(node);
        proof {
            assert(is_text_node(nodes@[nr + i], i as int, loose@[i as int]));
            assert forall|k: int| nr <= k < nodes@.len() implies #[trigger] from_text(nodes@[k], elems@[k], loose@) by {
                if k < before.len() {
                    assert(nodes@[k] == before[k] && elems@[k] == before_elems[k]);
                } else {
                    assert(is_text_node(nodes@[k], i as int, loose@[i as int]));
                }
            }
            assert forall|t: int| 0 <= t < i + 1 implies #[trigger] is_text_node(nodes@[nr + t], t, loose@[t]) by {
                if t < i {
                    assert(nodes@[nr + t] == before[nr + t]);
                }
            }
        }
        i += 1;
    }
    let ghost body = nodes@;
    proof {
        assert forall|k: int| 0 <= k < body.len() implies node_source(#[trigger] body[k], elems@[k], regions@, loose@) by {
            if k < nr {
                assert(nodes@[k] == region_part[k]);
                assert(elems@[k] == region_elems[k]);
                assert(from_region(region_part[k], region_elems[k], regions@));
            } else {
                assert(from_text(body[k], elems@[k], loose@));
            }
        }
    }
    let child_pos = order_by_key(&elems);
    let mut children: Vec<u64> = Vec::new();
    let mut child_order: Vec<usize> = Vec::new();
    let mut c: usize = 0;
    while c < child_pos.len()
        invariant
            c <= child_pos@.len(),
            lists_positions(child_pos@, elems@.len() as int),
            nodes@.len() == elems@.len(),
            nodes@ == body,
            children@.len() == c,
            child_order@.len() == c,
            forall|m: int|
                0 <= m < c ==> #[trigger] children@[m] == nodes@[child_pos@[m] as int].id && child_order@[m]
                    == elems@[child_pos@[m] as int],
        decreases child_pos@.len() - c,
    {
        let k = child_pos[c];
        let ghost before_children = children@;
        let ghost before_order = child_order@;
        children.push(nodes[k].id);
        child_order.push(elems[k]);
        proof {
            assert forall|m: int| 0 <= m < c + 1 implies #[trigger] children@[m] == nodes@[child_pos@[m] as int].id
                && child_order@[m] == elems@[child_pos@[m] as int] by {
                if m < c {
                    assert(children@[m] == before_children[m] && child_order@[m] == before_order[m]);
                }
            }
        }
        c += 1;
    }
    let root = A11yNode {
        id: ROOT,
        role: AxRole::Window,
        label: Some(title.to_owned()),
        level: None,
        disabled: false,
        click: false,
        focus: false,
        children,
    };
    proof {
        lemma_children_are_nodes(body, elems@, child_pos@, children@, child_order@, regions@, loose@);
        assert forall|j: int| 0 <= j < regions@.len() && meaningful(#[trigger] regions@[j]) implies children@.contains(
            region_node_id(regions@[j]),
        ) by {
            let k = choose|k: int| 0 <= k < region_part.len() && region_part[k].id == region_node_id(regions@[j]);
            assert(body[k] == region_part[k]);
            assert(children@.contains(body[k].id));
        }
        assert forall|t: int| 0 <= t < loose@.len() implies #[trigger] text_read(body, children@, t, loose@[t]) by {
            assert(is_text_node(body[nr + t], t, loose@[t]));
            assert(children@.contains(body[nr + t].id));
        }
        if forall|j: int| 0 <= j < regions@.len() ==> #[trigger] regions@[j].element_index + 1 < TEXT_ID_BASE {
            assert forall|k: int| 0 <= k < nr implies #[trigger] from_region(body[k], elems@[k], regions@) by {
                assert(body[k] == region_part[k] && elems@[k] == region_elems[k]);
            }
            assert forall|a: int, b: int| 0 <= a < b < nr implies #[trigger] body[a].id != #[trigger] body[b].id by {
                assert(body[a] == region_part[a] && body[b] == region_part[b]);
            }
            lemma_ids_apart(body, elems@, nr as int, child_pos@, children@, regions@, loose@);
        }
    }
    nodes.push(root);
    proof {
        assert(nodes@.drop_last() =~= body);
    }
    let t = A11yTree { nodes, focus, ids, child_order };
    proof {
        assert forall|j: int|
            0 <= j < regions@.len() && meaningful(#[trigger] regions@[j]) && regions@[j].id is Some implies exists|e: int|
                0 <= e < t.ids@.len() && t.ids@[e].0 == region_node_id(regions@[j]) by {
            let e = choose|e: int| 0 <= e < t.ids@.len() && t.ids@[e].0 == region_node_id(regions@[j]);
            assert(t.ids@[e].0 == region_node_id(regions@[j]));
        }
    }
    t
}

} // verus!
