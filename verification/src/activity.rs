use vstd::prelude::*;

verus! {

/// Identity of an opened file. Two editors show the same file exactly when
/// their `FileId`s are equal; paths or contents play no part in identity.
#[derive(Clone, Copy, PartialEq, Eq, Structural, Debug)]
pub struct FileId(pub u64);

/// Identity of an activity: a stable handle minted by the panel when the
/// activity is created. Selection and closing match activities by this
/// handle, never by their contents.
#[derive(Clone, Copy, PartialEq, Eq, Structural, Debug)]
pub struct ActivityId(pub u64);

/// What an activity shows: an editor bound to one file, or the static
/// welcome view.
#[derive(Clone, Copy, PartialEq, Eq, Structural, Debug)]
pub enum ActivityKind {
    Editor(FileId),
    Welcome,
}

/// One open view hosted by the panel: a stable identity plus the variant
/// that decides its label, icon and content.
#[derive(Clone, Copy, PartialEq, Eq, Structural, Debug)]
pub struct Activity {
    pub id: ActivityId,
    pub kind: ActivityKind,
}

impl Activity {
    /// True when this activity is an editor bound to exactly the file `f`.
    pub open spec fn is_editor_for(self, f: FileId) -> bool {
        self.kind matches ActivityKind::Editor(g) && g == f
    }

    /// Only editor tabs offer a close affordance; the welcome view keeps
    /// no close button.
    pub fn closable(&self) -> (b: bool)
        ensures
            b == (self.kind is Editor),
    {
        match self.kind {
            ActivityKind::Editor(_) => true,
            ActivityKind::Welcome => false,
        }
    }
}

} // verus!
