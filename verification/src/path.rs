//! Paths, as Unix takes them apart and puts them together, and as the platform compares them.
use crate::text;
use crate::uri;
use vstd::prelude::*;

verus! {

/// A component of a path.
#[derive(Clone, Debug, PartialEq, Eq)]
pub enum Component {
    /// The root directory, at the front of an absolute path.
    RootDir,
    /// A dot at the front of a relative path.
    CurDir,
    /// Two dots.
    ParentDir,
    /// The name of a file or directory.
    Normal(String),
}

/// A component, by the characters of its name.
pub enum ComponentView {
    RootDir,
    CurDir,
    ParentDir,
    Normal(Seq<char>),
}

impl View for Component {
    type V = ComponentView;

    open spec fn view(&self) -> ComponentView {
        match self {
            Component::RootDir => ComponentView::RootDir,
            Component::CurDir => ComponentView::CurDir,
            Component::ParentDir => ComponentView::ParentDir,
            Component::Normal(name) => ComponentView::Normal(name@),
        }
    }
}

/// The components, by the characters of their names.
pub open spec fn component_views(components: Seq<Component>) -> Seq<ComponentView> {
    Seq::new(components.len(), |i: int| components[i]@)
}

/// The component that a piece between slashes is. Empty pieces are none, and a dot is one only
/// at the front of a relative path.
pub open spec fn component(piece: Seq<char>, leading: bool) -> Option<ComponentView> {
    if piece.len() == 0 {
        None
    } else if piece == "."@ {
        if leading {
            Some(ComponentView::CurDir)
        } else {
            None
        }
    } else if piece == ".."@ {
        Some(ComponentView::ParentDir)
    } else {
        Some(ComponentView::Normal(piece))
    }
}

/// The components that the pieces are. `relative` says that the first piece is the front of a
/// relative path.
pub open spec fn piece_components(pieces: Seq<Seq<char>>, relative: bool) -> Seq<ComponentView>
    decreases pieces.len(),
{
    if pieces.len() == 0 {
        Seq::empty()
    } else {
        let before = piece_components(pieces.drop_last(), relative);
        match component(pieces.last(), relative && pieces.len() == 1) {
            Some(component) => before.push(component),
            None => before,
        }
    }
}

/// The components of a path.
pub open spec fn components(path: Seq<char>) -> Seq<ComponentView> {
    let pieces = text::segments(path, '/');
    if uri::is_absolute(path) {
        seq![ComponentView::RootDir] + piece_components(pieces, false)
    } else {
        piece_components(pieces, true)
    }
}

/// The path of a relative path in a directory.
pub open spec fn joined(dir: Seq<char>, name: Seq<char>) -> Seq<char> {
    if dir.len() == 0 || dir.last() == '/' {
        dir + name
    } else {
        dir + "/"@ + name
    }
}

/// Whether the path has a parent: it is not empty, and not the root.
pub open spec fn has_parent(path: Seq<char>) -> bool {
    components(path).len() > 0 && !(components(path).last() is RootDir)
}

/// Takes a path apart.
pub fn split_components(path: &str) -> (r: Vec<Component>)
    ensures
        component_views(r@) == components(path@),
        r@.len() == components(path@).len(),
        forall|i: int| 0 <= i < r@.len() ==> (#[trigger] r@[i])@ == components(path@)[i],
{
    let absolute: bool = text::starts_with(path, '/');
    let pieces = text::split(path, '/');
    let ghost all = text::views(pieces@);
    let mut r: Vec<Component> = Vec::new();
    if absolute {
        r.push(Component::RootDir);
    }
    let ghost front = component_views(r@);
    let mut i: usize = 0;
    assert(component_views(r@) =~= front + piece_components(all.take(0), !absolute));
    while i < pieces.len()
        invariant
            i <= pieces@.len(),
            all == text::views(pieces@),
            component_views(r@) == front + piece_components(all.take(i as int), !absolute),
        decreases pieces@.len() - i,
    {
        let ghost before = component_views(r@);
        let piece = pieces[i].as_str();
        proof {
            assert(all.take(i + 1).drop_last() =~= all.take(i as int));
            assert(all.take(i + 1).last() == piece@);
            reveal_strlit(".");
            reveal_strlit("..");
        }
        if piece.is_empty() {
        } else if text::same(piece, ".") {
            if !absolute && i == 0 {
                r.push(Component::CurDir);
                assert(component_views(r@) =~= before.push(ComponentView::CurDir));
            }
        } else if text::same(piece, "..") {
            r.push(Component::ParentDir);
            assert(component_views(r@) =~= before.push(ComponentView::ParentDir));
        } else {
            r.push(Component::Normal(piece.to_owned()));
            assert(component_views(r@) =~= before.push(ComponentView::Normal(piece@)));
        }
        assert(component_views(r@) =~= front + piece_components(all.take(i + 1), !absolute));
        i = i + 1;
    }
    proof {
        assert(all.take(i as int) =~= all);
        if absolute {
            assert(front =~= seq![ComponentView::RootDir]);
        } else {
            assert(front =~= Seq::empty());
            assert(front + piece_components(all, true) =~= piece_components(all, true));
        }
    }
    proof {
        assert(component_views(r@).len() == r@.len());
        assert forall|i: int| 0 <= i < r@.len() implies (#[trigger] r@[i])@ == components(
            path@,
        )[i] by {
            assert(component_views(r@)[i] == r@[i]@);
        }
    }
    r
}

/// Whether the path has a parent.
pub fn is_below_something(path: &str) -> (r: bool)
    ensures
        r == has_parent(path@),
{
    let parts = split_components(path);
    let len: usize = parts.len();
    assert(components(path@).len() == len);
    if len == 0 {
        return false;
    }
    assert(components(path@).last() == parts@[len - 1]@);
    match &parts[len - 1] {
        Component::RootDir => false,
        _ => true,
    }
}

/// Whether all platforms take the path apart in the same way, at its slashes. Some also take a
/// backslash for a separator, the front of a path up to a colon for a drive, and two slashes at
/// the front for the beginning of a server's name, so it has none of these.
pub open spec fn is_portable(path: Seq<char>) -> bool {
    &&& !path.contains('\\')
    &&& !path.contains(':')
    &&& !"//"@.is_prefix_of(path)
}

/// `<std::path::Path as PartialEq>::eq`: compares two paths by their components, as the platform
/// takes them apart. A path equals itself on every platform, and portable paths are equal if the
/// components between their slashes are. What comes of other paths depends on the platform, and
/// is left unsaid.
#[verifier::external_body]
fn platform_eq(a: &str, b: &str) -> (r: bool)
    ensures
        a@ == b@ ==> r,
        is_portable(a@) && is_portable(b@) ==> r == (components(a@) == components(b@)),
{
    std::path::Path::new(a) == std::path::Path::new(b)
}

/// `same` is what the platform can say when it compares these paths.
pub closed spec fn compared(a: Seq<char>, b: Seq<char>, same: bool) -> bool {
    exists|x: &str, y: &str|
        x@ == a && y@ == b && #[trigger] call_ensures(platform_eq, (x, y), same)
}

/// Whether the platform takes two paths for the same.
pub fn same_path(a: &str, b: &str) -> (r: bool)
    ensures
        compared(a@, b@, r),
        a@ == b@ ==> r,
        is_portable(a@) && is_portable(b@) ==> r == (components(a@) == components(b@)),
{
    let r: bool = platform_eq(a, b);
    assert(call_ensures(platform_eq, (a, b), r));
    r
}

/// Every platform takes a path for the same as itself, and portable paths for the same exactly
/// if they have the same components.
pub proof fn law_compared(a: Seq<char>, b: Seq<char>, same: bool)
    requires
        compared(a, b, same),
    ensures
        a == b ==> same,
        is_portable(a) && is_portable(b) ==> same == (components(a) == components(b)),
{
}

/// The path of a relative path in a directory.
pub fn join(dir: &str, name: &str) -> (r: String)
    ensures
        r@ == joined(dir@, name@),
{
    let len: usize = dir.unicode_len();
    if len == 0 || dir.get_char(len - 1) == '/' {
        text::concat(dir, name)
    } else {
        let mut r = text::concat(dir, "/");
        r.append(name);
        r
    }
}

proof fn lemma_piece_components_join(
    a: Seq<Seq<char>>,
    b: Seq<Seq<char>>,
    relative: bool,
    no_dot: bool,
)
    requires
        a.len() >= 1,
        no_dot ==> b.len() == 0 || b[0] != "."@,
    ensures
        piece_components(a + b, relative) == piece_components(a, relative) + piece_components(
            b,
            no_dot,
        ),
    decreases b.len(),
{
    if b.len() == 0 {
        assert(a + b =~= a);
        assert(piece_components(a + b, relative) =~= piece_components(a, relative)
            + piece_components(b, no_dot));
    } else {
        assert((a + b).drop_last() =~= a + b.drop_last());
        assert((a + b).last() == b.last());
        lemma_piece_components_join(a, b.drop_last(), relative, no_dot);
        assert(component(b.last(), no_dot && b.len() == 1) == component(b.last(), false)) by {
            if b.len() == 1 {
                assert(b.last() == b[0]);
            }
        }
        assert(piece_components(a + b, relative) =~= piece_components(a, relative)
            + piece_components(b, no_dot));
    }
}

/// A relative path that does not begin with a dot component adds its components to those of the
/// directory that it is joined to.
pub proof fn law_components_joined(dir: Seq<char>, name: Seq<char>)
    requires
        !uri::is_absolute(name),
        text::segments(name, '/')[0] != "."@,
    ensures
        components(joined(dir, name)) == components(dir) + components(name),
{
    reveal_strlit("/");
    assert("/"@ =~= seq!['/']);
    text::lemma_segments_nonempty(dir, '/');
    text::lemma_segments_nonempty(name, '/');
    let relative = !uri::is_absolute(dir);
    if dir.len() == 0 {
        assert(dir + name =~= name);
        reveal_with_fuel(piece_components, 2);
        assert(text::segments(dir, '/') =~= seq![Seq::<char>::empty()]);
        assert(piece_components(text::segments(dir, '/'), true) =~= Seq::empty()) by {
            assert(text::segments(dir, '/').drop_last() =~= Seq::empty());
        }
        assert(components(joined(dir, name)) =~= components(dir) + components(name));
    } else if dir.last() == '/' {
        let short = dir.drop_last();
        assert(dir =~= short + seq!['/'] + Seq::<char>::empty());
        assert(dir + name =~= short + seq!['/'] + name);
        text::lemma_segments_join(short, Seq::empty(), '/');
        text::lemma_segments_join(short, name, '/');
        text::lemma_segments_nonempty(short, '/');
        let pieces = text::segments(short, '/');
        assert(text::segments(dir, '/') =~= pieces.push(Seq::empty()));
        assert(text::segments(dir, '/').drop_last() =~= pieces);
        assert(piece_components(text::segments(dir, '/'), relative) == piece_components(
            pieces,
            relative,
        ));
        lemma_piece_components_join(pieces, text::segments(name, '/'), relative, true);
        assert(uri::is_absolute(dir + name) == uri::is_absolute(dir));
        assert(components(joined(dir, name)) =~= components(dir) + components(name));
    } else {
        text::lemma_segments_join(dir, name, '/');
        lemma_piece_components_join(
            text::segments(dir, '/'),
            text::segments(name, '/'),
            relative,
            true,
        );
        assert(uri::is_absolute(dir + "/"@ + name) == uri::is_absolute(dir));
        assert(components(joined(dir, name)) =~= components(dir) + components(name));
    }
}

/// A component is shown by the characters of its name.
pub proof fn law_component_view(component: Component)
    ensures
        match component {
            Component::RootDir => component@ is RootDir,
            Component::CurDir => component@ is CurDir,
            Component::ParentDir => component@ is ParentDir,
            Component::Normal(name) => component@ == ComponentView::Normal(name@),
        },
{
}

/// The components of a path without a slash: none if it is empty, else one, which is a name but
/// for a single dot and two dots.
pub proof fn law_components_of_a_piece(piece: Seq<char>)
    requires
        !piece.contains('/'),
    ensures
        piece.len() == 0 ==> components(piece).len() == 0,
        piece == "."@ ==> components(piece) == seq![ComponentView::CurDir],
        piece == ".."@ ==> components(piece) == seq![ComponentView::ParentDir],
        piece.len() > 0 && piece != "."@ && piece != ".."@ ==> components(piece) == seq![
            ComponentView::Normal(piece),
        ],
{
    reveal_strlit(".");
    reveal_strlit("..");
    text::lemma_one_segment(piece, '/');
    assert(piece.len() > 0 ==> piece.contains(piece[0]));
    let pieces = seq![piece];
    assert(piece_components(pieces.drop_last(), true) =~= Seq::empty());
    assert(components(piece) == piece_components(pieces, true));
    assert(piece == "."@ ==> components(piece) =~= seq![ComponentView::CurDir]);
    assert(piece == ".."@ ==> components(piece) =~= seq![ComponentView::ParentDir]);
    assert(piece.len() > 0 && piece != "."@ && piece != ".."@ ==> components(piece) =~= seq![
        ComponentView::Normal(piece),
    ]);
}

/// One more piece behind a slash is one more component, but for an empty piece and a single dot,
/// which add nothing. Behind nothing, the slash is the root.
pub proof fn law_components_of_one_more_piece(path: Seq<char>, piece: Seq<char>)
    requires
        !piece.contains('/'),
    ensures
        ({
            let before = if path.len() == 0 {
                seq![ComponentView::RootDir]
            } else {
                components(path)
            };
            let all = components(path + "/"@ + piece);
            &&& piece.len() == 0 || piece == "."@ ==> all == before
            &&& piece == ".."@ ==> all == before.push(ComponentView::ParentDir)
            &&& piece.len() > 0 && piece != "."@ && piece != ".."@ ==> all == before.push(
                ComponentView::Normal(piece),
            )
        }),
{
    reveal_strlit("/");
    reveal_strlit(".");
    reveal_strlit("..");
    assert("/"@ =~= seq!['/']);
    text::lemma_one_segment(piece, '/');
    text::lemma_segments_join(path, piece, '/');
    text::lemma_segments_nonempty(path, '/');
    let whole = path + "/"@ + piece;
    let pieces = text::segments(path, '/');
    let more = text::segments(whole, '/');
    assert(more =~= pieces.push(piece));
    assert(more.drop_last() =~= pieces);
    assert(more.last() == piece);
    if path.len() == 0 {
        assert(pieces =~= seq![Seq::<char>::empty()]);
        assert(piece_components(pieces.drop_last(), false) =~= Seq::empty());
        assert(piece_components(pieces, false) =~= Seq::empty());
        assert(whole[0] == '/');
    } else {
        assert(whole[0] == path[0]);
    }
    let relative = !uri::is_absolute(whole);
    let before = if path.len() == 0 {
        seq![ComponentView::RootDir]
    } else {
        components(path)
    };
    let front = if relative {
        Seq::<ComponentView>::empty()
    } else {
        seq![ComponentView::RootDir]
    };
    assert(before =~= front + piece_components(pieces, relative));
    assert(components(whole) =~= front + piece_components(more, relative));
    match component(piece, false) {
        Some(last) => {
            assert(components(whole) =~= before.push(last));
        },
        None => {
            assert(components(whole) =~= before);
        },
    }
}

/// A path has a parent exactly if it has a component other than the root at its end.
pub proof fn law_has_parent(path: Seq<char>)
    ensures
        has_parent(path) <==> components(path).len() > 0 && components(path).last()
            != ComponentView::RootDir,
{
}

/// Joining keeps the directory at the front and the name at the end, with one slash between them
/// unless the directory is empty or ends with a slash.
pub proof fn law_joined(dir: Seq<char>, name: Seq<char>)
    ensures
        dir.is_prefix_of(joined(dir, name)),
        joined(dir, name).len() >= name.len(),
        joined(dir, name).skip(joined(dir, name).len() - name.len()) == name,
        joined(dir, name).len() == dir.len() + name.len() <==> dir.len() == 0 || dir.last() == '/',
        dir.len() > 0 && dir.last() != '/' ==> joined(dir, name).len() == dir.len() + 1
            + name.len() && joined(dir, name)[dir.len() as int] == '/',
{
    reveal_strlit("/");
    let path = joined(dir, name);
    assert(path.subrange(0, dir.len() as int) =~= dir);
    assert(path.skip(path.len() - name.len()) =~= name);
}

} // verus!
