//! The laws the generator obeys, stated and proved over the spec-level
//! model of the manifest text.

use vstd::prelude::*;
use crate::generate::{
    binding_of, bindings_of, entry_of, ident_of, images_container_of, is_reserved,
    lemma_bindings_snoc, manifest_of, path_of, reserved_name,
};

verus! {

/// Idempotence: two generation runs over identical scan results produce
/// byte-identical manifest text.  The manifest holds no history and depends
/// on nothing but the scanned file names.
pub proof fn lemma_generation_idempotent(
    images_first: Seq<Seq<char>>,
    svgs_first: Seq<Seq<char>>,
    images_second: Seq<Seq<char>>,
    svgs_second: Seq<Seq<char>>,
)
    requires
        images_first == images_second,
        svgs_first == svgs_second,
    ensures
        manifest_of(images_first, svgs_first) == manifest_of(images_second, svgs_second),
{
}

/// Completeness: the bindings text of a category is exactly one correct
/// binding line per non-reserved scanned file, in scan order.
pub proof fn lemma_container_completeness(prefix: Seq<char>, names: Seq<Seq<char>>)
    ensures
        bindings_of(prefix, names) == names.filter(|n: Seq<char>| !is_reserved(n)).map_values(
            |n: Seq<char>| binding_of(ident_of(n), path_of(prefix, n)),
        ).flatten(),
    decreases names.len(),
{
    reveal(Seq::filter);
    let pred = (|n: Seq<char>| !is_reserved(n));
    let line = (|n: Seq<char>| binding_of(ident_of(n), path_of(prefix, n)));
    if names.len() == 0 {
        assert(names.filter(pred).map_values(line).len() == 0);
        assert(names.filter(pred).map_values(line).flatten() =~= Seq::<char>::empty());
    } else {
        let init = names.drop_last();
        let last = names.last();
        lemma_container_completeness(prefix, init);
        lemma_bindings_snoc(prefix, names);
        let lines = init.filter(pred).map_values(line);
        if pred(last) {
            assert(names.filter(pred) == init.filter(pred).push(last));
            assert(names.filter(pred).map_values(line) =~= lines.push(line(last)));
            lines.push(line(last)).lemma_flatten_and_flatten_alt_are_equivalent();
            lines.lemma_flatten_and_flatten_alt_are_equivalent();
            assert(lines.push(line(last)).drop_last() =~= lines);
            assert(lines.push(line(last)).flatten_alt() == lines.flatten_alt() + line(last));
            assert(entry_of(prefix, last) == line(last));
            assert(bindings_of(prefix, names) == names.filter(pred).map_values(line).flatten());
        } else {
            assert(names.filter(pred) == init.filter(pred));
            assert(entry_of(prefix, last) =~= Seq::<char>::empty());
            assert(bindings_of(prefix, names) =~= bindings_of(prefix, init));
            assert(bindings_of(prefix, names) == names.filter(pred).map_values(line).flatten());
        }
    }
}

/// Exclusion: a file bearing the reserved name contributes nothing, at
/// whatever position the scan yielded it.
pub proof fn lemma_reserved_never_emitted(prefix: Seq<char>, names: Seq<Seq<char>>, i: int)
    requires
        0 <= i <= names.len(),
    ensures
        bindings_of(prefix, names.insert(i, reserved_name())) == bindings_of(prefix, names),
    decreases i,
{
    let with_reserved = names.insert(i, reserved_name());
    if i == 0 {
        assert(with_reserved[0] == reserved_name());
        assert(with_reserved.drop_first() =~= names);
        assert(entry_of(prefix, reserved_name()) =~= Seq::<char>::empty());
        assert(bindings_of(prefix, with_reserved) =~= bindings_of(prefix, names));
    } else {
        lemma_reserved_never_emitted(prefix, names.drop_first(), i - 1);
        assert(with_reserved[0] == names[0]);
        assert(with_reserved.drop_first() =~= names.drop_first().insert(i - 1, reserved_name()));
        assert(bindings_of(prefix, with_reserved) == entry_of(prefix, names[0]) + bindings_of(
            prefix,
            with_reserved.drop_first(),
        ));
        assert(bindings_of(prefix, names) == entry_of(prefix, names[0]) + bindings_of(
            prefix,
            names.drop_first(),
        ));
        assert(bindings_of(prefix, with_reserved) =~= bindings_of(prefix, names));
    }
}

/// Two-category independence: the manifest always begins with the images
/// container, whose text depends on the images scan alone; a change that
/// touches only the svgs scan leaves that leading text unchanged.
pub proof fn lemma_category_independence(
    images: Seq<Seq<char>>,
    svgs_before: Seq<Seq<char>>,
    svgs_after: Seq<Seq<char>>,
)
    ensures
        manifest_of(images, svgs_before).subrange(
            0,
            images_container_of(images).len() as int,
        ) == images_container_of(images),
        manifest_of(images, svgs_after).subrange(
            0,
            images_container_of(images).len() as int,
        ) == images_container_of(images),
{
    let len = images_container_of(images).len() as int;
    assert(manifest_of(images, svgs_before).subrange(0, len) =~= images_container_of(images));
    assert(manifest_of(images, svgs_after).subrange(0, len) =~= images_container_of(images));
}

} // verus!
