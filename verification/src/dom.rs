//! The document model: the plain-value shape of a matched element, and the
//! verified accessors the extractors read it through.
use vstd::prelude::*;
use vstd::string::*;

use crate::text::str_eq;

verus! {

/// A child element of a matched node: its tag name and attributes.
pub struct ElemChild {
    pub tag: String,
    pub attrs: Vec<(String, String)>,
}

/// A matched element: its attributes, its descendant text nodes in document
/// order, its serialised inner markup, and its child elements in document
/// order.
pub struct Elem {
    pub attrs: Vec<(String, String)>,
    pub texts: Vec<String>,
    pub inner_html: String,
    pub children: Vec<ElemChild>,
}

/// The mathematical image of an `ElemChild`.
pub struct ChildV {
    pub tag: Seq<char>,
    pub attrs: Seq<(Seq<char>, Seq<char>)>,
}

/// The mathematical image of an `Elem`.
pub struct ElemV {
    pub attrs: Seq<(Seq<char>, Seq<char>)>,
    pub texts: Seq<Seq<char>>,
    pub inner_html: Seq<char>,
    pub children: Seq<ChildV>,
}

/// The views of a sequence of attribute pairs.
pub open spec fn attr_views(attrs: Seq<(String, String)>) -> Seq<(Seq<char>, Seq<char>)> {
    attrs.map_values(|p: (String, String)| (p.0@, p.1@))
}

/// The views of a sequence of text nodes.
pub open spec fn text_views(ts: Seq<String>) -> Seq<Seq<char>> {
    ts.map_values(|t: String| t@)
}

/// The views of a sequence of child elements.
pub open spec fn child_views(cs: Seq<ElemChild>) -> Seq<ChildV> {
    cs.map_values(|c: ElemChild| c@)
}

/// The views of a sequence of matched elements.
pub open spec fn elem_views(es: Seq<Elem>) -> Seq<ElemV> {
    es.map_values(|e: Elem| e@)
}

impl View for ElemChild {
    type V = ChildV;

    open spec fn view(&self) -> ChildV {
        ChildV { tag: self.tag@, attrs: attr_views(self.attrs@) }
    }
}

impl View for Elem {
    type V = ElemV;

    open spec fn view(&self) -> ElemV {
        ElemV {
            attrs: attr_views(self.attrs@),
            texts: text_views(self.texts@),
            inner_html: self.inner_html@,
            children: child_views(self.children@),
        }
    }
}

/// The value of the first attribute with the given name, if any.
pub open spec fn attr_of(attrs: Seq<(Seq<char>, Seq<char>)>, name: Seq<char>) -> Option<Seq<char>>
    decreases attrs.len(),
{
    if attrs.len() == 0 {
        None
    } else if attrs[0].0 == name {
        Some(attrs[0].1)
    } else {
        attr_of(attrs.drop_first(), name)
    }
}

/// Looks an attribute up by name.
pub fn get_attr(attrs: &Vec<(String, String)>, name: &str) -> (r: Option<String>)
    ensures
        r matches Some(v) ==> attr_of(attr_views(attrs@), name@) == Some(v@),
        r is None ==> attr_of(attr_views(attrs@), name@) is None,
{
    let ghost view = attr_views(attrs@);
    proof {
        assert(view.skip(0) =~= view);
    }
    let mut i: usize = 0;
    while i < attrs.len()
        invariant
            i <= attrs.len(),
            view == attr_views(attrs@),
            attr_of(view, name@) == attr_of(view.skip(i as int), name@),
        decreases attrs.len() - i,
    {
        if str_eq(attrs[i].0.as_str(), name) {
            proof {
                assert(view.skip(i as int)[0] == view[i as int]);
            }
            return Some(attrs[i].1.clone());
        }
        proof {
            assert(view.skip(i as int)[0] == view[i as int]);
            assert(view.skip(i as int).drop_first() =~= view.skip(i + 1));
        }
        i += 1;
    }
    proof {
        assert(view.skip(attrs@.len() as int) =~= Seq::<(Seq<char>, Seq<char>)>::empty());
    }
    None
}

/// The first child element carrying the given tag name, if any.
pub open spec fn child_with_tag(children: Seq<ChildV>, tag: Seq<char>) -> Option<ChildV>
    decreases children.len(),
{
    if children.len() == 0 {
        None
    } else if children[0].tag == tag {
        Some(children[0])
    } else {
        child_with_tag(children.drop_first(), tag)
    }
}

/// Finds the first child element with the given tag name.
pub fn find_child<'a>(children: &'a Vec<ElemChild>, tag: &str) -> (r: Option<&'a ElemChild>)
    ensures
        r matches Some(c) ==> child_with_tag(child_views(children@), tag@) == Some(c@),
        r is None ==> child_with_tag(child_views(children@), tag@) is None,
{
    let ghost view = child_views(children@);
    proof {
        assert(view.skip(0) =~= view);
    }
    let mut i: usize = 0;
    while i < children.len()
        invariant
            i <= children.len(),
            view == child_views(children@),
            child_with_tag(view, tag@) == child_with_tag(view.skip(i as int), tag@),
        decreases children.len() - i,
    {
        if str_eq(children[i].tag.as_str(), tag) {
            proof {
                assert(view.skip(i as int)[0] == view[i as int]);
            }
            return Some(&children[i]);
        }
        proof {
            assert(view.skip(i as int)[0] == view[i as int]);
            assert(view.skip(i as int).drop_first() =~= view.skip(i + 1));
        }
        i += 1;
    }
    proof {
        assert(view.skip(children@.len() as int) =~= Seq::<ChildV>::empty());
    }
    None
}

} // verus!
