//! From what a parser read to checked terms.
use crate::types::{NodeView, RdfNode};
use vstd::prelude::*;

pub mod rm_to_om;

verus! {

/// Terms that may be blank nodes.
pub trait AsBlank {
    /// The term as a mathematical value.
    spec fn node(&self) -> NodeView;

    /// The blank node label, if the term is a blank node.
    fn as_blank(&self) -> (res: Option<&String>)
        ensures
            match res {
                Some(id) => self.node() == NodeView::Blank(id@),
                None => !(self.node() is Blank),
            },
    ;

    /// The blank node label, to be changed in place, if the term is a
    /// blank node.
    fn as_blank_mut(&mut self) -> (res: Option<&mut String>)
        ensures
            match res {
                Some(id) => old(self).node() == NodeView::Blank(id@) && final(self).node()
                    == NodeView::Blank(final(id)@),
                None => !(old(self).node() is Blank) && final(self).node() == old(self).node(),
            },
    ;
}

impl AsBlank for RdfNode {
    open spec fn node(&self) -> NodeView {
        self@
    }

    fn as_blank(&self) -> (res: Option<&String>) {
        match self {
            RdfNode::Blank(b) => Some(b),
            _ => None,
        }
    }

    fn as_blank_mut(&mut self) -> (res: Option<&mut String>) {
        match self {
            RdfNode::Blank(b) => Some(b),
            _ => None,
        }
    }
}

} // verus!
