//! Import and export in exchange formats: OBJ for now. Reading and writing
//! the files is the host's; these decide which file.

use vstd::prelude::*;
use vstd::string::*;

use crate::builtin::wm::{ask_path, asks_path};
use crate::decimal::{decimal, push_decimal};
use crate::context::Ctx;
use crate::operator::{OpFlags, Operator};
use crate::registry::{add_ops, OpInfo, Registry};

verus! {

/// Import every mesh of an OBJ as a new object; the imports end up selected
/// with the last one active.
pub struct ImportObj;

impl Operator for ImportObj {
    open spec fn spec_info() -> OpInfo {
        OpInfo { id: "wm.import_obj", label: "Import OBJ…", flags: OpFlags(3) }
    }

    fn info() -> (r: OpInfo) {
        OpInfo { id: "wm.import_obj", label: "Import OBJ…", flags: OpFlags(3) }
    }
}

/// Export every visible mesh object of the scene, in world space.
pub struct ExportObj;

impl Operator for ExportObj {
    open spec fn spec_info() -> OpInfo {
        OpInfo { id: "wm.export_obj", label: "Export OBJ…", flags: OpFlags(1) }
    }

    fn info() -> (r: OpInfo) {
        OpInfo { id: "wm.export_obj", label: "Export OBJ…", flags: OpFlags(1) }
    }
}

/// What `register` adds, in order.
pub open spec fn ops() -> Seq<OpInfo> {
    seq![ImportObj::spec_info(), ExportObj::spec_info()]
}

pub fn register(r: &mut Registry)
    ensures
        final(r).view() == add_ops(old(r).view(), ops()),
{
    let infos = vec![ImportObj::info(), ExportObj::info()];
    proof {
        assert(infos@ =~= ops());
    }
    r.register_infos(infos.as_slice());
}

/// What `Path::with_extension` makes of `path` and `ext`, as text.
pub uninterp spec fn path_with_extension(path: Seq<char>, ext: Seq<char>) -> Seq<char>;

/// `ext` holds no path separator: no slash, nor a backslash, which
/// Windows also takes for one.
pub open spec fn no_separator(ext: Seq<char>) -> bool {
    !ext.contains('/') && !ext.contains('\\')
}

/// `std::path::Path::with_extension`, on text: `path` with the extension of
/// its last component replaced by `ext` (or added). The contract only names
/// the result; which component counts as the extension is std's rule. std
/// panics on an extension holding a path separator, hence the `requires`.
#[verifier::external_body]
fn with_extension(path: &str, ext: &str) -> (r: String)
    requires
        no_separator(ext@),
    ensures
        r@ == path_with_extension(path@, ext@),
{
    std::path::Path::new(path).with_extension(ext).display().to_string()
}

/// The path offered for an exchange file: the document's path with `ext`,
/// or `untitled.ext` for a document never saved.
pub open spec fn sibling_spec(doc_path: Option<Seq<char>>, ext: Seq<char>) -> Seq<char> {
    match doc_path {
        Some(p) => path_with_extension(p, ext),
        None => "untitled."@ + ext,
    }
}

/// The path offered for an exchange file: the document's path with `ext`,
/// or `untitled.ext` for a document never saved. An extension is one
/// path component, so it holds no separator.
pub fn sibling(doc_path: Option<&str>, ext: &str) -> (r: String)
    requires
        no_separator(ext@),
    ensures
        r@ == sibling_spec(
            match doc_path {
                Some(p) => Some(p@),
                None => None,
            },
            ext@,
        ),
{
    match doc_path {
        Some(p) => with_extension(p, ext),
        None => {
            let mut s = String::from_str("untitled.");
            s.append(ext);
            s
        },
    }
}

/// Ask for the exchange file `op` reads or writes unless `path` is given,
/// offering the document's path with an `.obj` extension.
fn obj_target(ctx: &mut Ctx, op: &str, save: bool, path: &str, doc_path: Option<&str>) -> (r: Option<String>)
    ensures
        path@.len() > 0 ==> (r matches Some(s) && s@ == path@) && final(ctx).requests@ == old(ctx).requests@,
        path@.len() == 0 ==> {
            &&& r is None
            &&& final(ctx).requests@.drop_last() == old(ctx).requests@
            &&& asks_path(
                final(ctx).requests@.last(),
                op@,
                save,
                Some(sibling_spec(
                    match doc_path {
                        Some(p) => Some(p@),
                        None => None,
                    },
                    "obj"@,
                )),
            )
        },
        final(ctx).report == old(ctx).report,
{
    if path.unicode_len() > 0 {
        Some(path.to_owned())
    } else {
        proof {
            reveal_strlit("obj");
        }
        let suggest = sibling(doc_path, "obj");
        ask_path(ctx, op, save, Some(suggest));
        None
    }
}

impl ImportObj {
    /// The OBJ file to read: `path` when given, else ask for one (the run
    /// then ends `Cancelled`), offering the document's path as `.obj`.
    pub fn target(ctx: &mut Ctx, path: &str, doc_path: Option<&str>) -> (r: Option<String>)
        ensures
            path@.len() > 0 ==> (r matches Some(s) && s@ == path@) && final(ctx).requests@ == old(ctx).requests@,
            path@.len() == 0 ==> {
                &&& r is None
                &&& final(ctx).requests@.drop_last() == old(ctx).requests@
                &&& asks_path(
                    final(ctx).requests@.last(),
                    "wm.import_obj"@,
                    false,
                    Some(sibling_spec(
                        match doc_path {
                            Some(p) => Some(p@),
                            None => None,
                        },
                        "obj"@,
                    )),
                )
            },
            final(ctx).report == old(ctx).report,
    {
        obj_target(ctx, "wm.import_obj", false, path, doc_path)
    }
}

impl ExportObj {
    /// The OBJ file to write: `path` when given, else ask for one (the run
    /// then ends `Cancelled`), offering the document's path as `.obj`.
    pub fn target(ctx: &mut Ctx, path: &str, doc_path: Option<&str>) -> (r: Option<String>)
        ensures
            path@.len() > 0 ==> (r matches Some(s) && s@ == path@) && final(ctx).requests@ == old(ctx).requests@,
            path@.len() == 0 ==> {
                &&& r is None
                &&& final(ctx).requests@.drop_last() == old(ctx).requests@
                &&& asks_path(
                    final(ctx).requests@.last(),
                    "wm.export_obj"@,
                    true,
                    Some(sibling_spec(
                        match doc_path {
                            Some(p) => Some(p@),
                            None => None,
                        },
                        "obj"@,
                    )),
                )
            },
            final(ctx).report == old(ctx).report,
    {
        obj_target(ctx, "wm.export_obj", true, path, doc_path)
    }
}

impl ImportObj {
    /// The status line after importing `n` objects with `verts` vertices
    /// and `faces` faces in all, `skipped` faces having been left out.
    pub fn report(n: usize, verts: usize, faces: usize, skipped: usize) -> (r: String)
        ensures
            r@ == "Imported "@ + decimal(n as nat) + " object(s): "@ + decimal(verts as nat) + " vertices, "@ + decimal(faces as nat)
                + " faces"@ + (if skipped > 0 { ", "@ + decimal(skipped as nat) + " face(s) skipped"@ } else { Seq::empty() }),
    {
        let mut r = String::from_str("Imported ");
        push_decimal(&mut r, n);
        r.append(" object(s): ");
        push_decimal(&mut r, verts);
        r.append(" vertices, ");
        push_decimal(&mut r, faces);
        r.append(" faces");
        if skipped > 0 {
            r.append(", ");
            push_decimal(&mut r, skipped);
            r.append(" face(s) skipped");
        }
        proof {
            if skipped == 0 {
                assert(r@ =~= r@ + Seq::<char>::empty());
            }
        }
        r
    }
}

impl ExportObj {
    /// The status line after writing `n` objects to `path`.
    pub fn report(n: usize, path: &str) -> (r: String)
        ensures
            r@ == "Exported "@ + decimal(n as nat) + " object(s) to "@ + path@,
    {
        let mut r = String::from_str("Exported ");
        push_decimal(&mut r, n);
        r.append(" object(s) to ");
        r.append(path);
        r
    }
}

} // verus!
