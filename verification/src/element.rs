use vstd::prelude::*;

use crate::text::str_eq;

verus! {

/// One node of a job document: its tag name, its attributes in document
/// order, its text content, and its child nodes.
#[derive(Debug)]
pub struct Element {
    pub name: String,
    pub attributes: Vec<(String, String)>,
    pub text: String,
    pub children: Vec<Element>,
}

/// Ghost mirror of [`Element`].
#[verifier::ext_equal]
pub struct ElementV {
    pub name: Seq<char>,
    pub attributes: Seq<(Seq<char>, Seq<char>)>,
    pub text: Seq<char>,
    pub children: Seq<ElementV>,
}

pub open spec fn element_view(e: Element) -> ElementV
    decreases e,
{
    ElementV {
        name: e.name@,
        attributes: e.attributes@.map_values(|p: (String, String)| (p.0@, p.1@)),
        text: e.text@,
        children: children_view(e.children@),
    }
}

pub open spec fn children_view(cs: Seq<Element>) -> Seq<ElementV>
    decreases cs,
{
    if cs.len() == 0 {
        Seq::empty()
    } else {
        seq![element_view(cs[0])] + children_view(cs.drop_first())
    }
}

pub proof fn lemma_children_view(cs: Seq<Element>)
    ensures
        children_view(cs).len() == cs.len(),
        forall|i: int| 0 <= i < cs.len() ==> children_view(cs)[i] == element_view(cs[i]),
    decreases cs,
{
    if cs.len() > 0 {
        lemma_children_view(cs.drop_first());
        assert forall|i: int| 0 <= i < cs.len() implies children_view(cs)[i] == element_view(
            cs[i],
        ) by {
            if i > 0 {
                assert(cs.drop_first()[i - 1] == cs[i]);
            }
        }
    }
}

/// The value of the first attribute named `name`, if any.
pub open spec fn attr_of(attrs: Seq<(Seq<char>, Seq<char>)>, name: Seq<char>) -> Option<Seq<char>>
    decreases attrs,
{
    if attrs.len() == 0 {
        Option::None
    } else if attrs[0].0 == name {
        Option::Some(attrs[0].1)
    } else {
        attr_of(attrs.drop_first(), name)
    }
}

impl Element {
    /// A node with the given tag and nothing else.
    pub fn new(name: &str) -> (e: Element)
        ensures
            element_view(e) == (ElementV {
                name: name@,
                attributes: Seq::empty(),
                text: Seq::empty(),
                children: Seq::empty(),
            }),
    {
        let e = Element {
            name: String::from_str(name),
            attributes: Vec::new(),
            text: String::new(),
            children: Vec::new(),
        };
        proof {
            assert(e.attributes@.map_values(|p: (String, String)| (p.0@, p.1@)) =~= Seq::<
                (Seq<char>, Seq<char>),
            >::empty());
            assert(children_view(e.children@) =~= Seq::<ElementV>::empty());
            assert(element_view(e) =~= (ElementV {
                name: name@,
                attributes: Seq::empty(),
                text: Seq::empty(),
                children: Seq::empty(),
            }));
        }
        e
    }

    /// The value of the first attribute named `name`, copied out.
    pub fn attr(&self, name: &str) -> (r: Option<String>)
        ensures
            match r {
                Some(v) => attr_of(element_view(*self).attributes, name@) == Some(v@),
                None => attr_of(element_view(*self).attributes, name@) is None,
            },
    {
        let ghost av = element_view(*self).attributes;
        proof {
            assert(av.subrange(0, av.len() as int) =~= av);
        }
        let n = self.attributes.len();
        let mut i: usize = 0;
        while i < n
            invariant
                i <= n,
                n == self.attributes@.len(),
                av == element_view(*self).attributes,
                av.len() == n,
                forall|k: int| 0 <= k < n ==> av[k] == (
                    self.attributes@[k].0@,
                    self.attributes@[k].1@,
                ),
                attr_of(av, name@) == attr_of(av.subrange(i as int, n as int), name@),
            decreases n - i,
        {
            let ghost suf = av.subrange(i as int, n as int);
            proof {
                assert(suf[0] == av[i as int]);
                assert(suf.drop_first() =~= av.subrange(i + 1, n as int));
            }
            let pair: &(String, String) = &self.attributes[i];
            if str_eq(pair.0.as_str(), name) {
                return Some(pair.1.clone());
            }
            i = i + 1;
        }
        proof {
            assert(av.subrange(n as int, n as int) =~= Seq::<(Seq<char>, Seq<char>)>::empty());
        }
        None
    }
}

} // verus!
