use vstd::prelude::*;

verus! {

/// Identifier of an object within one drawing.
#[derive(Debug, Clone, Copy, PartialEq, Eq, Hash, Structural)]
pub struct Handle(pub u64);

/// An object's handle and its byte offset in the objects section.
#[derive(Debug, Clone, Copy, PartialEq, Eq, Structural)]
pub struct ObjectRef {
    pub handle: Handle,
    pub offset: u32,
}

/// The objects of a drawing in map order.
#[derive(Debug, Clone)]
pub struct ObjectIndex {
    pub objects: Vec<ObjectRef>,
}

/// The last position in `objs` that holds handle `h`.
pub open spec fn last_with_handle(objs: Seq<ObjectRef>, h: Handle) -> int
    decreases objs.len(),
{
    if objs.len() == 0 {
        -1
    } else if objs.last().handle == h {
        objs.len() - 1
    } else {
        last_with_handle(objs.drop_last(), h)
    }
}

impl ObjectIndex {
    pub fn from_objects(objects: Vec<ObjectRef>) -> (r: ObjectIndex)
        ensures
            r.objects@ == objects@,
    {
        ObjectIndex { objects }
    }

    /// The object with handle `handle`; where a handle repeats, the last entry
    /// holding it.
    pub fn get(&self, handle: Handle) -> (r: Option<ObjectRef>)
        ensures
            last_with_handle(self.objects@, handle) < 0 ==> r.is_none(),
            last_with_handle(self.objects@, handle) >= 0 ==> r == Some(
                self.objects@[last_with_handle(self.objects@, handle)],
            ),
    {
        let mut i = self.objects.len();
        assert(self.objects@.subrange(0, i as int) =~= self.objects@);
        while i > 0
            invariant
                0 <= i <= self.objects@.len(),
                last_with_handle(self.objects@, handle) == last_with_handle(
                    self.objects@.subrange(0, i as int),
                    handle,
                ),
            decreases i,
        {
            let ghost prefix = self.objects@.subrange(0, i as int);
            assert(prefix.drop_last() =~= self.objects@.subrange(0, i - 1));
            if self.objects[i - 1].handle == handle {
                return Some(self.objects[i - 1]);
            }
            i = i - 1;
        }
        None
    }

    pub fn len(&self) -> (r: usize)
        ensures
            r == self.objects@.len(),
    {
        self.objects.len()
    }

    pub fn is_empty(&self) -> (r: bool)
        ensures
            r == (self.objects@.len() == 0),
    {
        self.objects.len() == 0
    }
}

} // verus!
