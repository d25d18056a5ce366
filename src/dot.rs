//! The directed-graph description handed to the layout engine.

use vstd::prelude::*;

verus! {

/// A character that must be preceded by a backslash inside a quoted identifier.
pub open spec fn needs_escape(c: char) -> bool {
    c == '"' || c == '\\'
}

/// What one character of a name becomes inside a quoted identifier.
pub open spec fn escape_char(c: char) -> Seq<char> {
    if needs_escape(c) {
        seq!['\\', c]
    } else {
        seq![c]
    }
}

/// The body of a quoted identifier: every quote and backslash of `s` gets a
/// backslash in front of it.
pub open spec fn escaped(s: Seq<char>) -> Seq<char>
    decreases s.len(),
{
    if s.len() == 0 {
        Seq::empty()
    } else {
        escape_char(s[0]) + escaped(s.drop_first())
    }
}

/// A name written as a quoted identifier of the description language.
pub open spec fn quoted_id(s: Seq<char>) -> Seq<char> {
    seq!['"'] + escaped(s) + seq!['"']
}

proof fn lemma_escaped_concat(a: Seq<char>, b: Seq<char>)
    ensures
        escaped(a + b) == escaped(a) + escaped(b),
    decreases a.len(),
{
    if a.len() == 0 {
        assert(a + b =~= b);
        assert(escaped(a) + escaped(b) =~= escaped(b));
    } else {
        assert((a + b).drop_first() =~= a.drop_first() + b);
        lemma_escaped_concat(a.drop_first(), b);
        assert(escaped(a + b) =~= escaped(a) + escaped(b));
    }
}

proof fn lemma_escaped_push(s: Seq<char>, i: int)
    requires
        0 <= i < s.len(),
    ensures
        escaped(s.subrange(0, i + 1)) == escaped(s.subrange(0, i)) + escape_char(s[i]),
{
    let single = seq![s[i]];
    assert(s.subrange(0, i + 1) =~= s.subrange(0, i) + single);
    lemma_escaped_concat(s.subrange(0, i), single);
    assert(single.drop_first() =~= Seq::<char>::empty());
    assert(escaped(single.drop_first()) =~= Seq::<char>::empty());
    assert(escaped(single) =~= escape_char(s[i]));
}

/// Writes `name` as a quoted identifier, so that any character it holds leaves
/// the grammar of the description intact.
pub fn node_name_to_dot_id(name: &str) -> (r: String)
    ensures
        r@ == quoted_id(name@),
{
    let mut out = String::new();
    out.append("\"");
    let n = name.unicode_len();
    let mut i: usize = 0;
    proof {
        reveal_strlit("\"");
        assert(name@.subrange(0, 0) =~= Seq::<char>::empty());
    }
    while i < n
        invariant
            n == name@.len(),
            0 <= i <= n,
            out@ == seq!['"'] + escaped(name@.subrange(0, i as int)),
        decreases n - i,
    {
        let c = name.get_char(i);
        if c == '"' || c == '\\' {
            out.append("\\");
        }
        out.append(name.substring_char(i, i + 1));
        proof {
            reveal_strlit("\\");
            lemma_escaped_push(name@, i as int);
            assert(out@ =~= seq!['"'] + escaped(name@.subrange(0, i + 1)));
        }
        i = i + 1;
    }
    out.append("\"");
    proof {
        assert(name@.subrange(0, n as int) =~= name@);
        assert(out@ =~= quoted_id(name@));
    }
    out
}


/// The character of a decimal digit.
pub open spec fn digit_char(d: nat) -> char {
    if d == 0 {
        '0'
    } else if d == 1 {
        '1'
    } else if d == 2 {
        '2'
    } else if d == 3 {
        '3'
    } else if d == 4 {
        '4'
    } else if d == 5 {
        '5'
    } else if d == 6 {
        '6'
    } else if d == 7 {
        '7'
    } else if d == 8 {
        '8'
    } else {
        '9'
    }
}

/// The decimal notation of `n`, without leading zeros.
pub open spec fn decimal(n: nat) -> Seq<char>
    decreases n,
{
    if n < 10 {
        seq![digit_char(n)]
    } else {
        decimal(n / 10) + seq![digit_char(n % 10)]
    }
}

fn digit_str(d: u64) -> (r: &'static str)
    requires
        d < 10,
    ensures
        r@ == seq![digit_char(d as nat)],
{
    proof {
        reveal_strlit("0");
        reveal_strlit("1");
        reveal_strlit("2");
        reveal_strlit("3");
        reveal_strlit("4");
        reveal_strlit("5");
        reveal_strlit("6");
        reveal_strlit("7");
        reveal_strlit("8");
        reveal_strlit("9");
    }
    let r = if d == 0 {
        "0"
    } else if d == 1 {
        "1"
    } else if d == 2 {
        "2"
    } else if d == 3 {
        "3"
    } else if d == 4 {
        "4"
    } else if d == 5 {
        "5"
    } else if d == 6 {
        "6"
    } else if d == 7 {
        "7"
    } else if d == 8 {
        "8"
    } else {
        "9"
    };
    assert(r@ =~= seq![digit_char(d as nat)]);
    r
}

/// Appends the decimal notation of `n` to `out`.
pub fn write_decimal(out: &mut String, n: u64)
    ensures
        final(out)@ == old(out)@ + decimal(n as nat),
    decreases n,
{
    if n >= 10 {
        write_decimal(out, n / 10);
    }
    out.append(digit_str(n % 10));
    proof {
        if n >= 10 {
            assert(final(out)@ =~= old(out)@ + decimal(n as nat));
        } else {
            assert(final(out)@ =~= old(out)@ + decimal(n as nat));
        }
    }
}

/// A directed edge from an output port of one node to an input port of another.
pub struct Edge {
    pub tail: String,
    pub tail_port: u32,
    pub head: String,
    pub head_port: u32,
}

pub struct EdgeView {
    pub tail: Seq<char>,
    pub tail_port: nat,
    pub head: Seq<char>,
    pub head_port: nat,
}

impl View for Edge {
    type V = EdgeView;

    open spec fn view(&self) -> EdgeView {
        EdgeView {
            tail: self.tail@,
            tail_port: self.tail_port as nat,
            head: self.head@,
            head_port: self.head_port as nat,
        }
    }
}

/// The topology of the pipeline: its nodes in order, and its edges in order.
pub struct GraphModel {
    pub nodes: Vec<String>,
    pub edges: Vec<Edge>,
}

pub struct GraphView {
    pub nodes: Seq<Seq<char>>,
    pub edges: Seq<EdgeView>,
}

impl View for GraphModel {
    type V = GraphView;

    open spec fn view(&self) -> GraphView {
        GraphView {
            nodes: self.nodes@.map_values(|s: String| s@),
            edges: self.edges@.map_values(|e: Edge| e@),
        }
    }
}

/// The counters one node reported: written per output port, read per input port.
pub struct NodeStatus {
    pub name: String,
    pub output_written: Vec<u64>,
    pub input_read: Vec<u64>,
}

pub struct NodeStatusView {
    pub name: Seq<char>,
    pub output_written: Seq<u64>,
    pub input_read: Seq<u64>,
}

impl View for NodeStatus {
    type V = NodeStatusView;

    open spec fn view(&self) -> NodeStatusView {
        NodeStatusView {
            name: self.name@,
            output_written: self.output_written@,
            input_read: self.input_read@,
        }
    }
}

/// The counters of the nodes that reported in one poll cycle.
pub struct StatusSnapshot {
    pub entries: Vec<NodeStatus>,
}

impl View for StatusSnapshot {
    type V = Seq<NodeStatusView>;

    open spec fn view(&self) -> Seq<NodeStatusView> {
        self.entries@.map_values(|e: NodeStatus| e@)
    }
}

/// The status a snapshot holds for `name`; where a name was reported twice,
/// the later report stands.
pub open spec fn status_of(snap: Seq<NodeStatusView>, name: Seq<char>) -> Option<NodeStatusView>
    decreases snap.len(),
{
    if snap.len() == 0 {
        None
    } else if snap.last().name == name {
        Some(snap.last())
    } else {
        status_of(snap.drop_last(), name)
    }
}

/// Each port index of `e` exists in the status of its node, where that node reported.
pub open spec fn edge_ports_valid(e: EdgeView, snap: Seq<NodeStatusView>) -> bool {
    &&& (status_of(snap, e.tail) matches Some(st) ==> e.tail_port < st.output_written.len())
    &&& (status_of(snap, e.head) matches Some(st) ==> e.head_port < st.input_read.len())
}

pub open spec fn ports_valid(g: GraphView, snap: Seq<NodeStatusView>) -> bool {
    forall|i: int| 0 <= i < g.edges.len() ==> edge_ports_valid(#[trigger] g.edges[i], snap)
}

/// The counter written at the tail port of `e`, where its tail node reported.
pub open spec fn tail_label(e: EdgeView, snap: Seq<NodeStatusView>) -> Option<u64> {
    match status_of(snap, e.tail) {
        Some(st) => Some(st.output_written[e.tail_port as int]),
        None => None,
    }
}

/// The counter read at the head port of `e`, where its head node reported.
pub open spec fn head_label(e: EdgeView, snap: Seq<NodeStatusView>) -> Option<u64> {
    match status_of(snap, e.head) {
        Some(st) => Some(st.input_read[e.head_port as int]),
        None => None,
    }
}

pub open spec fn attribute(key: Seq<char>, n: u64) -> Seq<char> {
    key + "=\""@ + decimal(n as nat) + "\""@
}

/// The attribute list of an edge statement; absent when neither label is present.
pub open spec fn attribute_list(tail: Option<u64>, head: Option<u64>) -> Seq<char> {
    match (tail, head) {
        (None, None) => Seq::empty(),
        (Some(t), None) => " ["@ + attribute("taillabel"@, t) + "]"@,
        (None, Some(h)) => " ["@ + attribute("headlabel"@, h) + "]"@,
        (Some(t), Some(h)) => " ["@ + attribute("taillabel"@, t) + ", "@ + attribute(
            "headlabel"@,
            h,
        ) + "]"@,
    }
}

pub open spec fn node_line(name: Seq<char>) -> Seq<char> {
    quoted_id(name) + "\n"@
}

pub open spec fn edge_line(e: EdgeView, tail: Option<u64>, head: Option<u64>) -> Seq<char> {
    quoted_id(e.tail) + " -> "@ + quoted_id(e.head) + attribute_list(tail, head) + "\n"@
}

pub open spec fn nodes_text(nodes: Seq<Seq<char>>) -> Seq<char>
    decreases nodes.len(),
{
    if nodes.len() == 0 {
        Seq::empty()
    } else {
        nodes_text(nodes.drop_last()) + node_line(nodes.last())
    }
}

pub open spec fn edges_text(edges: Seq<EdgeView>, snap: Seq<NodeStatusView>) -> Seq<char>
    decreases edges.len(),
{
    if edges.len() == 0 {
        Seq::empty()
    } else {
        let e = edges.last();
        edges_text(edges.drop_last(), snap) + edge_line(e, tail_label(e, snap), head_label(e, snap))
    }
}

/// The whole description: a header, one statement per node in order, one
/// statement per edge in order, and the closing brace.
pub open spec fn description(g: GraphView, snap: Seq<NodeStatusView>) -> Seq<char> {
    "digraph G {\n"@ + nodes_text(g.nodes) + edges_text(g.edges, snap) + "}\n"@
}


/// Why a description could not be built.
#[derive(Debug, Clone, Copy, PartialEq, Eq, Structural)]
pub enum BuildError {
    /// The edge at this index names a port that its reporting node does not have.
    PortOutOfRange { edge: usize },
}

/// The index of the entry that stands for `name` in the snapshot.
pub fn find_status(snap: &StatusSnapshot, name: &String) -> (r: Option<usize>)
    ensures
        match r {
            Some(j) => j < snap@.len() && status_of(snap@, name@) == Some(snap@[j as int]),
            None => status_of(snap@, name@) is None,
        },
{
    let mut i: usize = snap.entries.len();
    proof {
        assert(snap@.subrange(0, i as int) =~= snap@);
    }
    while i > 0
        invariant
            i <= snap@.len(),
            snap@.len() == snap.entries@.len(),
            status_of(snap@, name@) == status_of(snap@.subrange(0, i as int), name@),
        decreases i,
    {
        let ghost prefix = snap@.subrange(0, i as int);
        if snap.entries[i - 1].name == *name {
            return Some(i - 1);
        }
        proof {
            assert(prefix.drop_last() =~= snap@.subrange(0, i - 1));
        }
        i = i - 1;
    }
    None
}

/// The counters that label `e`, or `None` where a reporting node lacks the
/// port that `e` names.
fn edge_counters(e: &Edge, snap: &StatusSnapshot) -> (r: Option<(Option<u64>, Option<u64>)>)
    ensures
        match r {
            Some((t, h)) => edge_ports_valid(e@, snap@) && t == tail_label(e@, snap@) && h
                == head_label(e@, snap@),
            None => !edge_ports_valid(e@, snap@),
        },
{
    let tail = match find_status(snap, &e.tail) {
        Some(j) => {
            let out = &snap.entries[j].output_written;
            if (e.tail_port as usize) < out.len() {
                Some(out[e.tail_port as usize])
            } else {
                return None;
            }
        },
        None => None,
    };
    let head = match find_status(snap, &e.head) {
        Some(j) => {
            let inp = &snap.entries[j].input_read;
            if (e.head_port as usize) < inp.len() {
                Some(inp[e.head_port as usize])
            } else {
                return None;
            }
        },
        None => None,
    };
    Some((tail, head))
}

fn write_attribute(out: &mut String, key: &str, n: u64)
    ensures
        final(out)@ == old(out)@ + attribute(key@, n),
{
    out.append(key);
    out.append("=\"");
    write_decimal(out, n);
    out.append("\"");
    assert(final(out)@ =~= old(out)@ + attribute(key@, n));
}

fn write_edge(out: &mut String, e: &Edge, tail: Option<u64>, head: Option<u64>)
    ensures
        final(out)@ == old(out)@ + edge_line(e@, tail, head),
{
    let t = node_name_to_dot_id(e.tail.as_str());
    let h = node_name_to_dot_id(e.head.as_str());
    out.append(t.as_str());
    out.append(" -> ");
    out.append(h.as_str());
    let ghost before = out@;
    match (tail, head) {
        (None, None) => {},
        (Some(a), None) => {
            out.append(" [");
            write_attribute(out, "taillabel", a);
            out.append("]");
        },
        (None, Some(b)) => {
            out.append(" [");
            write_attribute(out, "headlabel", b);
            out.append("]");
        },
        (Some(a), Some(b)) => {
            out.append(" [");
            write_attribute(out, "taillabel", a);
            out.append(", ");
            write_attribute(out, "headlabel", b);
            out.append("]");
        },
    }
    assert(out@ =~= before + attribute_list(tail, head));
    out.append("\n");
    assert(final(out)@ =~= old(out)@ + edge_line(e@, tail, head));
}

/// Builds the description of `graph` annotated with the counters of `statuses`.
/// It fails exactly when an edge names a port that its reporting node lacks,
/// and then names the first such edge.
pub fn build_description(graph: &GraphModel, statuses: &StatusSnapshot) -> (r: Result<
    String,
    BuildError,
>)
    ensures
        match r {
            Ok(d) => ports_valid(graph@, statuses@) && d@ == description(graph@, statuses@),
            Err(BuildError::PortOutOfRange { edge }) => {
                &&& edge < graph@.edges.len()
                &&& !edge_ports_valid(graph@.edges[edge as int], statuses@)
                &&& forall|k: int|
                    0 <= k < edge ==> edge_ports_valid(#[trigger] graph@.edges[k], statuses@)
            },
        },
{
    let mut out = String::new();
    out.append("digraph G {\n");
    let ghost header = out@;
    let mut i: usize = 0;
    proof {
        assert(graph@.nodes.subrange(0, 0) =~= Seq::<Seq<char>>::empty());
        assert(out@ =~= header + nodes_text(graph@.nodes.subrange(0, 0)));
    }
    while i < graph.nodes.len()
        invariant
            i <= graph.nodes@.len(),
            graph@.nodes.len() == graph.nodes@.len(),
            header == "digraph G {\n"@,
            out@ == header + nodes_text(graph@.nodes.subrange(0, i as int)),
        decreases graph.nodes@.len() - i,
    {
        let id = node_name_to_dot_id(graph.nodes[i].as_str());
        out.append(id.as_str());
        out.append("\n");
        proof {
            let next = graph@.nodes.subrange(0, i + 1);
            assert(next.drop_last() =~= graph@.nodes.subrange(0, i as int));
            assert(out@ =~= header + nodes_text(next));
        }
        i = i + 1;
    }
    proof {
        assert(graph@.nodes.subrange(0, i as int) =~= graph@.nodes);
    }
    let ghost with_nodes = out@;
    let mut k: usize = 0;
    proof {
        assert(graph@.edges.subrange(0, 0) =~= Seq::<EdgeView>::empty());
        assert(out@ =~= with_nodes + edges_text(graph@.edges.subrange(0, 0), statuses@));
    }
    while k < graph.edges.len()
        invariant
            k <= graph.edges@.len(),
            graph@.edges.len() == graph.edges@.len(),
            with_nodes == "digraph G {\n"@ + nodes_text(graph@.nodes),
            out@ == with_nodes + edges_text(graph@.edges.subrange(0, k as int), statuses@),
            forall|j: int| 0 <= j < k ==> edge_ports_valid(#[trigger] graph@.edges[j], statuses@),
        decreases graph.edges@.len() - k,
    {
        let e = &graph.edges[k];
        match edge_counters(e, statuses) {
            Some((t, h)) => {
                write_edge(&mut out, e, t, h);
            },
            None => {
                return Err(BuildError::PortOutOfRange { edge: k });
            },
        }
        proof {
            let next = graph@.edges.subrange(0, k + 1);
            assert(next.drop_last() =~= graph@.edges.subrange(0, k as int));
            assert(out@ =~= with_nodes + edges_text(next, statuses@));
        }
        k = k + 1;
    }
    out.append("}\n");
    proof {
        assert(graph@.edges.subrange(0, k as int) =~= graph@.edges);
        assert(out@ =~= description(graph@, statuses@));
    }
    Ok(out)
}


/// Reads the body of a quoted identifier up to its closing quote: a backslash
/// takes the next character literally. Gives the name read and the text after
/// the closing quote, or `None` where the text ends first.
pub open spec fn read_body(t: Seq<char>) -> Option<(Seq<char>, Seq<char>)>
    decreases t.len(),
{
    if t.len() == 0 {
        None
    } else if t[0] == '"' {
        Some((Seq::empty(), t.drop_first()))
    } else if t[0] == '\\' {
        if t.len() < 2 {
            None
        } else {
            match read_body(t.subrange(2, t.len() as int)) {
                Some((body, rest)) => Some((seq![t[1]] + body, rest)),
                None => None,
            }
        }
    } else {
        match read_body(t.drop_first()) {
            Some((body, rest)) => Some((seq![t[0]] + body, rest)),
            None => None,
        }
    }
}

/// Reads a quoted identifier at the start of `t`.
pub open spec fn read_quoted(t: Seq<char>) -> Option<(Seq<char>, Seq<char>)> {
    if t.len() > 0 && t[0] == '"' {
        read_body(t.drop_first())
    } else {
        None
    }
}

proof fn lemma_read_escaped(s: Seq<char>, rest: Seq<char>)
    ensures
        read_body(escaped(s) + seq!['"'] + rest) == Some((s, rest)),
    decreases s.len(),
{
    let t = escaped(s) + seq!['"'] + rest;
    if s.len() == 0 {
        assert(t =~= seq!['"'] + rest);
        assert(t.drop_first() =~= rest);
        assert(s =~= Seq::<char>::empty());
    } else {
        let tail = s.drop_first();
        let inner = escaped(tail) + seq!['"'] + rest;
        lemma_read_escaped(tail, rest);
        assert(seq![s[0]] + tail =~= s);
        if needs_escape(s[0]) {
            assert(t =~= seq!['\\', s[0]] + inner);
            assert(t.subrange(2, t.len() as int) =~= inner);
        } else {
            assert(t =~= seq![s[0]] + inner);
            assert(t.drop_first() =~= inner);
        }
    }
}

/// A quoted identifier reads back as exactly the name it was written from, and
/// reading stops at its closing quote whatever text follows: no character of a
/// name can break the statement that the name stands in.
pub proof fn lemma_quoted_id_reads_back(name: Seq<char>, rest: Seq<char>)
    ensures
        read_quoted(quoted_id(name) + rest) == Some((name, rest)),
{
    let t = quoted_id(name) + rest;
    assert(t.drop_first() =~= escaped(name) + seq!['"'] + rest);
    lemma_read_escaped(name, rest);
}

/// The description is a function of the contents of the graph and the snapshot
/// alone: equal inputs give the same text, and fail alike.
pub proof fn lemma_build_deterministic(
    g1: &GraphModel,
    s1: &StatusSnapshot,
    g2: &GraphModel,
    s2: &StatusSnapshot,
)
    requires
        g1@ == g2@,
        s1@ == s2@,
    ensures
        description(g1@, s1@) == description(g2@, s2@),
        ports_valid(g1@, s1@) == ports_valid(g2@, s2@),
{
}

proof fn lemma_edges_text_concat(a: Seq<EdgeView>, b: Seq<EdgeView>, snap: Seq<NodeStatusView>)
    ensures
        edges_text(a + b, snap) == edges_text(a, snap) + edges_text(b, snap),
    decreases b.len(),
{
    if b.len() == 0 {
        assert(a + b =~= a);
        assert(edges_text(a, snap) + edges_text(b, snap) =~= edges_text(a, snap));
    } else {
        assert((a + b).drop_last() =~= a + b.drop_last());
        lemma_edges_text_concat(a, b.drop_last(), snap);
        assert(edges_text(a + b, snap) =~= edges_text(a, snap) + edges_text(b, snap));
    }
}

/// Where the statement of the edge at index `k` starts in the description.
pub open spec fn edge_offset(g: GraphView, snap: Seq<NodeStatusView>, k: int) -> int {
    ("digraph G {\n"@.len() + nodes_text(g.nodes).len() + edges_text(
        g.edges.subrange(0, k),
        snap,
    ).len()) as int
}

/// Every edge has its statement in the description. Its tail label is there
/// exactly when its tail node reported, and is then the output counter at the
/// edge's tail port; likewise its head label, with the input counter at its
/// head port.
pub proof fn lemma_edge_labels(g: GraphView, snap: Seq<NodeStatusView>, k: int)
    requires
        0 <= k < g.edges.len(),
        edge_ports_valid(g.edges[k], snap),
    ensures
        ({
            let e = g.edges[k];
            let line = edge_line(e, tail_label(e, snap), head_label(e, snap));
            description(g, snap).subrange(
                edge_offset(g, snap, k),
                edge_offset(g, snap, k) + line.len(),
            ) == line
        }),
        tail_label(g.edges[k], snap) is None <==> status_of(snap, g.edges[k].tail) is None,
        status_of(snap, g.edges[k].tail) matches Some(st) ==> tail_label(g.edges[k], snap)
            == Some(st.output_written[g.edges[k].tail_port as int]),
        head_label(g.edges[k], snap) is None <==> status_of(snap, g.edges[k].head) is None,
        status_of(snap, g.edges[k].head) matches Some(st) ==> head_label(g.edges[k], snap)
            == Some(st.input_read[g.edges[k].head_port as int]),
{
    let e = g.edges[k];
    let line = edge_line(e, tail_label(e, snap), head_label(e, snap));
    let before = g.edges.subrange(0, k);
    let one = seq![e];
    let after = g.edges.subrange(k + 1, g.edges.len() as int);
    assert(g.edges =~= before + one + after);
    lemma_edges_text_concat(before + one, after, snap);
    lemma_edges_text_concat(before, one, snap);
    assert(one.drop_last() =~= Seq::<EdgeView>::empty());
    assert(one.last() == e);
    assert(edges_text(one.drop_last(), snap) =~= Seq::<char>::empty());
    assert(edges_text(one, snap) =~= line);
    let header = "digraph G {\n"@;
    let d = description(g, snap);
    let pre = header + nodes_text(g.nodes) + edges_text(before, snap);
    assert(d =~= pre + line + (edges_text(after, snap) + "}\n"@));
    assert(d.subrange(pre.len() as int, (pre.len() + line.len()) as int) =~= line);
}

} // verus!
