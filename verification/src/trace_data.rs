//! The data a trace is made of: call nodes and completed records.

use vstd::prelude::*;

verus! {

/// One recorded invocation: its name, where it was entered, and the calls
/// that ran to completion inside it, oldest first.
#[derive(Debug)]
pub struct CallNode {
    pub name: String,
    pub file: String,
    pub line: u32,
    pub children: Vec<CallNode>,
}

/// The mathematical value of a [`CallNode`].
pub ghost struct CallTree {
    pub name: Seq<char>,
    pub file: Seq<char>,
    pub line: u32,
    pub children: Seq<CallTree>,
}

impl View for CallNode {
    type V = CallTree;

    open spec fn view(&self) -> CallTree {
        self.tree()
    }
}

/// The values of a sequence of nodes, in order.
pub open spec fn forest_view(nodes: Seq<CallNode>) -> Seq<CallTree> {
    Seq::new(nodes.len(), |i: int| nodes[i]@)
}

impl CallNode {
    /// The value of the node: its own fields and the values of its children.
    pub open spec fn tree(self) -> CallTree
        decreases self,
    {
        CallTree {
            name: self.name@,
            file: self.file@,
            line: self.line,
            children: Seq::new(
                self.children@.len(),
                |i: int|
                    if 0 <= i < self.children@.len() {
                        self.children@[i].tree()
                    } else {
                        arbitrary()
                    },
            ),
        }
    }

    /// A node with no children yet.
    pub fn leaf(name: &str, file: &str, line: u32) -> (node: CallNode)
        ensures
            node@ == (CallTree { name: name@, file: file@, line, children: Seq::empty() }),
    {
        let node = CallNode {
            name: name.to_owned(),
            file: file.to_owned(),
            line,
            children: Vec::new(),
        };
        assert(node@.children =~= Seq::empty());
        node
    }

    /// A deep copy: the node with its whole subtree.
    pub fn snapshot(&self) -> (copy: CallNode)
        ensures
            copy@ == self@,
        decreases self,
    {
        let mut children: Vec<CallNode> = Vec::new();
        let mut i: usize = 0;
        while i < self.children.len()
            invariant
                i <= self.children.len(),
                children@.len() == i,
                forall|k: int| 0 <= k < i ==> children@[k]@ == self.children@[k]@,
            decreases self.children.len() - i,
        {
            let child = self.children[i].snapshot();
            children.push(child);
            i += 1;
        }
        let copy = CallNode {
            name: self.name.clone(),
            file: self.file.clone(),
            line: self.line,
            children,
        };
        assert(copy@.children =~= self@.children) by {
            assert forall|k: int| 0 <= k < copy@.children.len() implies copy@.children[k]
                == self@.children[k] by {
                assert(copy.children@[k]@ == self.children@[k]@);
            }
        }
        copy
    }
}

impl Clone for CallNode {
    /// Copies the node's identity only: the copy starts without children.
    fn clone(&self) -> (copy: CallNode)
        ensures
            copy@ == (CallTree {
                name: self@.name,
                file: self@.file,
                line: self@.line,
                children: Seq::empty(),
            }),
    {
        let copy = CallNode {
            name: self.name.clone(),
            file: self.file.clone(),
            line: self.line,
            children: Vec::new(),
        };
        assert(copy@.children =~= Seq::empty());
        copy
    }
}

/// The JSON text of a recorded value, or the reason why it has none.
#[derive(Debug)]
pub enum Encoded {
    /// The value as JSON text.
    Text(String),
    /// The value could not be encoded; the encoder's message.
    Failed(String),
}

impl View for Encoded {
    type V = Result<Seq<char>, Seq<char>>;

    open spec fn view(&self) -> Result<Seq<char>, Seq<char>> {
        match self {
            Encoded::Text(t) => Ok(t@),
            Encoded::Failed(m) => Err(m@),
        }
    }
}

impl Encoded {
    /// A copy of the text or of the message.
    pub fn duplicate(&self) -> (copy: Encoded)
        ensures
            copy@ == self@,
    {
        match self {
            Encoded::Text(t) => Encoded::Text(t.clone()),
            Encoded::Failed(m) => Encoded::Failed(m.clone()),
        }
    }
}

/// The durable unit of output: one call's subtree as it stood when the call
/// was recorded, with its inputs, its output, the time and the thread.
#[derive(Debug)]
pub struct CallData {
    pub timestamp_utc: String,
    pub thread_id: String,
    pub root_node: CallNode,
    pub inputs: Encoded,
    pub output: Encoded,
}

/// The mathematical value of a [`CallData`].
pub ghost struct RecordView {
    pub timestamp_utc: Seq<char>,
    pub thread_id: Seq<char>,
    pub root_node: CallTree,
    pub inputs: Result<Seq<char>, Seq<char>>,
    pub output: Result<Seq<char>, Seq<char>>,
}

impl View for CallData {
    type V = RecordView;

    open spec fn view(&self) -> RecordView {
        RecordView {
            timestamp_utc: self.timestamp_utc@,
            thread_id: self.thread_id@,
            root_node: self.root_node@,
            inputs: self.inputs@,
            output: self.output@,
        }
    }
}

/// The values of a sequence of records, in order.
pub open spec fn records_view(records: Seq<CallData>) -> Seq<RecordView> {
    Seq::new(records.len(), |i: int| records[i]@)
}

} // verus!
