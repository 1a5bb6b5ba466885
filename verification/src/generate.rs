//! The manifest generator: derives an identifier and a path for every file
//! name found under the two category directories and renders the generated
//! registry text.

use vstd::prelude::*;
use vstd::string::StrSliceExecFns;
use vstd::string::StringExecFns;
use crate::camel::{lower_camel_of, to_lower_camel};

verus! {

/// The single file name that is never emitted into the manifest:
/// `.DS_Store`, the folder-metadata file that macOS drops into directories.
pub open spec fn reserved_name() -> Seq<char> {
    ".DS_Store"@
}

/// A file name is excluded exactly when it equals the reserved name,
/// case-sensitively.
pub open spec fn is_reserved(name: Seq<char>) -> bool {
    name == reserved_name()
}

/// The identifier source of a file name: the segment before its first `.`,
/// or the whole name if it contains none.
pub open spec fn stem_of(name: Seq<char>) -> Seq<char>
    decreases name.len(),
{
    if name.len() == 0 {
        Seq::empty()
    } else if name[0] == '.' {
        Seq::empty()
    } else {
        seq![name[0]] + stem_of(name.drop_first())
    }
}

/// The stem is the prefix of the name up to the first `.`.
proof fn lemma_stem_is_prefix(name: Seq<char>, i: int)
    requires
        0 <= i <= name.len(),
        forall|j: int| 0 <= j < i ==> name[j] != '.',
        i < name.len() ==> name[i] == '.',
    ensures
        stem_of(name) == name.subrange(0, i),
    decreases i,
{
    if i == 0 {
        assert(stem_of(name) =~= name.subrange(0, 0));
    } else {
        lemma_stem_is_prefix(name.drop_first(), i - 1);
        assert(seq![name[0]] + name.drop_first().subrange(0, i - 1) =~= name.subrange(0, i));
    }
}

/// Whether two string slices hold the same characters.
fn str_equal(a: &str, b: &str) -> (r: bool)
    ensures
        r == (a@ == b@),
{
    let n: usize = a.unicode_len();
    if n != b.unicode_len() {
        return false;
    }
    let mut i: usize = 0;
    while i < n
        invariant
            0 <= i <= n,
            n == a@.len(),
            n == b@.len(),
            forall|j: int| 0 <= j < i ==> a@[j] == b@[j],
        decreases n - i,
    {
        if a.get_char(i) != b.get_char(i) {
            return false;
        }
        i += 1;
    }
    proof {
        assert(a@ =~= b@);
    }
    true
}

/// Whether a file name is the reserved, always-excluded one.
pub fn is_reserved_name(name: &str) -> (r: bool)
    ensures
        r == is_reserved(name@),
{
    str_equal(name, ".DS_Store")
}

/// The segment of a file name before its first `.` (the whole name when it
/// has no `.`).
pub fn file_stem<'a>(name: &'a str) -> (r: &'a str)
    ensures
        r@ == stem_of(name@),
{
    let n: usize = name.unicode_len();
    let mut i: usize = 0;
    while i < n
        invariant
            0 <= i <= n,
            n == name@.len(),
            forall|j: int| 0 <= j < i ==> name@[j] != '.',
        decreases n - i,
    {
        if name.get_char(i) == '.' {
            proof {
                lemma_stem_is_prefix(name@, i as int);
            }
            return name.substring_char(0, i);
        }
        i += 1;
    }
    proof {
        lemma_stem_is_prefix(name@, n as int);
    }
    name.substring_char(0, n)
}

/// The derived identifier of a file name: its stem, lowerCamelCased.
pub open spec fn ident_of(name: Seq<char>) -> Seq<char> {
    lower_camel_of(stem_of(name))
}

/// Derives the constant identifier for one file name.
pub fn derive_identifier(name: &str) -> (r: String)
    ensures
        r@ == ident_of(name@),
{
    let stem = file_stem(name);
    to_lower_camel(stem)
}

/// The stored path of a file: the category's repository-relative prefix,
/// a forward slash, and the original file name with its extension.
pub open spec fn path_of(prefix: Seq<char>, name: Seq<char>) -> Seq<char> {
    prefix + "/"@ + name
}

/// Joins a category prefix and a file name with a forward slash.
pub fn asset_path(prefix: &str, name: &str) -> (r: String)
    ensures
        r@ == path_of(prefix@, name@),
{
    let mut r = String::from_str(prefix);
    r.append("/");
    r.append(name);
    r
}

/// One constant binding line for a derived identifier and a stored path.
pub open spec fn binding_of(ident: Seq<char>, path: Seq<char>) -> Seq<char> {
    "  static const String "@ + ident + " = \""@ + path + "\";\n"@
}

/// Renders the constant binding line for an identifier and a path.
pub fn render_binding(ident: &str, path: &str) -> (r: String)
    ensures
        r@ == binding_of(ident@, path@),
{
    let mut r = String::from_str("  static const String ");
    r.append(ident);
    r.append(" = \"");
    r.append(path);
    r.append("\";\n");
    r
}

/// What one scanned file name contributes to its container: nothing when it
/// is the reserved name, else its binding line.
pub open spec fn entry_of(prefix: Seq<char>, name: Seq<char>) -> Seq<char> {
    if is_reserved(name) {
        Seq::empty()
    } else {
        binding_of(ident_of(name), path_of(prefix, name))
    }
}

/// The text of all binding lines of one category, in scan order.
pub open spec fn bindings_of(prefix: Seq<char>, names: Seq<Seq<char>>) -> Seq<char>
    decreases names.len(),
{
    if names.len() == 0 {
        Seq::empty()
    } else {
        entry_of(prefix, names[0]) + bindings_of(prefix, names.drop_first())
    }
}

/// Appending one more scanned name extends the bindings text by that name's
/// contribution.
pub(crate) proof fn lemma_bindings_snoc(prefix: Seq<char>, names: Seq<Seq<char>>)
    requires
        names.len() > 0,
    ensures
        bindings_of(prefix, names) == bindings_of(prefix, names.drop_last()) + entry_of(
            prefix,
            names.last(),
        ),
    decreases names.len(),
{
    if names.len() == 1 {
        assert(bindings_of(prefix, names.drop_first()) == Seq::<char>::empty());
        assert(bindings_of(prefix, names.drop_last()) == Seq::<char>::empty());
        assert(bindings_of(prefix, names) =~= bindings_of(prefix, names.drop_last()) + entry_of(
            prefix,
            names.last(),
        ));
    } else {
        let df = names.drop_first();
        lemma_bindings_snoc(prefix, df);
        assert(df.last() == names.last());
        assert(df.drop_last() =~= names.drop_last().drop_first());
        assert(bindings_of(prefix, names) == entry_of(prefix, names[0]) + bindings_of(prefix, df));
        assert(names.drop_last().len() > 0);
        assert(names.drop_last()[0] == names[0]);
        assert(bindings_of(prefix, names.drop_last()) == entry_of(prefix, names[0])
            + bindings_of(prefix, names.drop_last().drop_first()));
        assert(bindings_of(prefix, names) =~= bindings_of(prefix, names.drop_last()) + entry_of(
            prefix,
            names.last(),
        ));
    }
}

/// Appends the binding lines of every non-reserved name to `out`.
fn append_bindings(out: &mut String, prefix: &str, names: &Vec<String>)
    ensures
        final(out)@ == old(out)@ + bindings_of(prefix@, names.deep_view()),
{
    let ghost ns: Seq<Seq<char>> = names.deep_view();
    let mut k: usize = 0;
    while k < names.len()
        invariant
            0 <= k <= names.len(),
            ns == names.deep_view(),
            ns.len() == names.len(),
            out@ == old(out)@ + bindings_of(prefix@, ns.take(k as int)),
        decreases names.len() - k,
    {
        let name: &String = &names[k];
        if !is_reserved_name(name.as_str()) {
            let ident = derive_identifier(name.as_str());
            let path = asset_path(prefix, name.as_str());
            let line = render_binding(ident.as_str(), path.as_str());
            out.append(line.as_str());
        }
        proof {
            assert(ns.take(k + 1).drop_last() =~= ns.take(k as int));
            assert(ns.take(k + 1).last() == ns[k as int]);
            lemma_bindings_snoc(prefix@, ns.take(k + 1));
            assert(out@ =~= old(out)@ + bindings_of(prefix@, ns.take(k + 1)));
        }
        k += 1;
    }
    proof {
        assert(ns.take(names.len() as int) =~= ns);
    }
}

/// The repository-relative directory prefix of the images category.
pub open spec fn images_prefix() -> Seq<char> {
    "assets/images"@
}

/// The repository-relative directory prefix of the svgs category.
pub open spec fn svgs_prefix() -> Seq<char> {
    "assets/svgs"@
}

/// The opening line of the images container.
pub open spec fn images_header() -> Seq<char> {
    "class ImageAssets {\n"@
}

/// The closing line of the images container; its brace carries a trailing
/// space in the emitted artifact.
pub open spec fn images_footer() -> Seq<char> {
    "} \n"@
}

/// The opening line of the svgs container.
pub open spec fn svgs_header() -> Seq<char> {
    "class SvgAssets {\n"@
}

/// The closing line of the svgs container.
pub open spec fn svgs_footer() -> Seq<char> {
    "}\n"@
}

/// The full text of the images container for the given scanned file names.
pub open spec fn images_container_of(names: Seq<Seq<char>>) -> Seq<char> {
    images_header() + bindings_of(images_prefix(), names) + images_footer()
}

/// The full text of the svgs container for the given scanned file names.
pub open spec fn svgs_container_of(names: Seq<Seq<char>>) -> Seq<char> {
    svgs_header() + bindings_of(svgs_prefix(), names) + svgs_footer()
}

/// The whole generated manifest: the images container immediately followed
/// by the svgs container.
pub open spec fn manifest_of(images: Seq<Seq<char>>, svgs: Seq<Seq<char>>) -> Seq<char> {
    images_container_of(images) + svgs_container_of(svgs)
}

/// Renders the images container from the file names its scan yielded.
pub fn images_container(names: &Vec<String>) -> (r: String)
    ensures
        r@ == images_container_of(names.deep_view()),
{
    let mut out = String::from_str("class ImageAssets {\n");
    append_bindings(&mut out, "assets/images", names);
    out.append("} \n");
    out
}

/// Renders the svgs container from the file names its scan yielded.
pub fn svgs_container(names: &Vec<String>) -> (r: String)
    ensures
        r@ == svgs_container_of(names.deep_view()),
{
    let mut out = String::from_str("class SvgAssets {\n");
    append_bindings(&mut out, "assets/svgs", names);
    out.append("}\n");
    out
}

/// Renders the whole manifest from the two directory scans.  Its text is a
/// pure function of the file names the scans yielded, in scan order.
pub fn generate_manifest(images: &Vec<String>, svgs: &Vec<String>) -> (r: String)
    ensures
        r@ == manifest_of(images.deep_view(), svgs.deep_view()),
{
    let img = images_container(images);
    let svg = svgs_container(svgs);
    img.concat(svg.as_str())
}

} // verus!
