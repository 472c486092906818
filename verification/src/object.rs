//! The plain-value data model: keys, raw remote records, and domain entries.

use vstd::prelude::*;

verus! {

/// Composite key identifying a remote object: `(namespace, name)`.
/// Equality is structural; no ordering is required.
pub struct ObjectRef {
    pub namespace: String,
    pub name: String,
}

/// Mathematical value of an [`ObjectRef`].
pub struct ObjectRefView {
    pub namespace: Seq<char>,
    pub name: Seq<char>,
}

impl View for ObjectRef {
    type V = ObjectRefView;

    open spec fn view(&self) -> ObjectRefView {
        ObjectRefView { namespace: self.namespace@, name: self.name@ }
    }
}

impl DeepView for ObjectRef {
    type V = ObjectRefView;

    open spec fn deep_view(&self) -> ObjectRefView {
        self.view()
    }
}

impl Clone for ObjectRef {
    fn clone(&self) -> (r: Self)
        ensures
            r@ == self@,
    {
        ObjectRef { namespace: self.namespace.clone(), name: self.name.clone() }
    }
}

impl ObjectRef {
    pub fn new(namespace: String, name: String) -> (r: ObjectRef)
        ensures
            r@ == (ObjectRefView { namespace: namespace@, name: name@ }),
    {
        ObjectRef { namespace, name }
    }

    /// Structural equality of the two key components.
    pub fn key_eq(&self, other: &ObjectRef) -> (r: bool)
        ensures
            r == (self@ == other@),
    {
        let r = self.namespace == other.namespace && self.name == other.name;
        r
    }
}

/// A raw record from the remote source, reduced to the fields the mirror
/// reads: its composite key and the first declared image reference of its
/// pod template (absent when the remote record declares none).
pub struct RemoteObject {
    pub namespace: String,
    pub name: String,
    pub image: Option<String>,
}

/// Mathematical value of a [`RemoteObject`].
pub struct RemoteObjectView {
    pub namespace: Seq<char>,
    pub name: Seq<char>,
    pub image: Option<Seq<char>>,
}

impl RemoteObjectView {
    /// The composite key under which the record is stored.
    pub open spec fn key(self) -> ObjectRefView {
        ObjectRefView { namespace: self.namespace, name: self.name }
    }
}

impl View for RemoteObject {
    type V = RemoteObjectView;

    open spec fn view(&self) -> RemoteObjectView {
        RemoteObjectView {
            namespace: self.namespace@,
            name: self.name@,
            image: match self.image {
                Some(img) => Some(img@),
                None => None,
            },
        }
    }
}

impl DeepView for RemoteObject {
    type V = RemoteObjectView;

    open spec fn deep_view(&self) -> RemoteObjectView {
        self.view()
    }
}

impl Clone for RemoteObject {
    fn clone(&self) -> (r: Self)
        ensures
            r@ == self@,
    {
        RemoteObject {
            namespace: self.namespace.clone(),
            name: self.name.clone(),
            image: match &self.image {
                Some(img) => Some(img.clone()),
                None => None,
            },
        }
    }
}

impl RemoteObject {
    /// The composite key of this record.
    pub fn object_ref(&self) -> (r: ObjectRef)
        ensures
            r@ == self@.key(),
    {
        ObjectRef { namespace: self.namespace.clone(), name: self.name.clone() }
    }
}

/// The domain-visible projection of a remote record; immutable once built.
pub struct Entry {
    pub container: String,
    pub name: String,
    pub namespace: String,
    pub version: String,
}

/// Mathematical value of an [`Entry`].
pub struct EntryView {
    pub container: Seq<char>,
    pub name: Seq<char>,
    pub namespace: Seq<char>,
    pub version: Seq<char>,
}

impl EntryView {
    /// The composite key the entry was projected from.
    pub open spec fn key(self) -> ObjectRefView {
        ObjectRefView { namespace: self.namespace, name: self.name }
    }
}

impl View for Entry {
    type V = EntryView;

    open spec fn view(&self) -> EntryView {
        EntryView {
            container: self.container@,
            name: self.name@,
            namespace: self.namespace@,
            version: self.version@,
        }
    }
}

impl DeepView for Entry {
    type V = EntryView;

    open spec fn deep_view(&self) -> EntryView {
        self.view()
    }
}

impl Clone for Entry {
    fn clone(&self) -> (r: Self)
        ensures
            r@ == self@,
    {
        Entry {
            container: self.container.clone(),
            name: self.name.clone(),
            namespace: self.namespace.clone(),
            version: self.version.clone(),
        }
    }
}

} // verus!
