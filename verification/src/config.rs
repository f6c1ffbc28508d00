//! The repository configuration document.
//!
//! A configuration is kept in an [`ini::Ini`].  The verifier cannot look
//! inside one, so its contents are described by [`ini_sections`]: the
//! sections in the order in which the document lists them, each with its
//! key/value pairs in order.  What the `ini` crate does with a document
//! is taken on trust, in the few items of this module that call it; all
//! else is proved from their contracts.

use ini::{Ini, LineSeparator, WriteOption};
use vstd::prelude::*;
use vstd::slice::slice_subrange;

verus! {

/// `ini::Ini`, a configuration document.  Nothing is known of a value
/// but what [`ini_sections`] says of it.
#[verifier::external_type_specification]
#[verifier::external_body]
pub struct ExIni(ini::Ini);

/// `ini::Error`, the failure of reading a document.  It is carried, never
/// looked into.
#[verifier::external_type_specification]
#[verifier::external_body]
pub struct ExIniError(ini::Error);

/// The sections that `ini` holds, in the order in which `Ini::iter` walks
/// them: each is its name (`None` for the general section) and its
/// key/value pairs, in the order in which `Properties::iter` walks them.
pub uninterp spec fn ini_sections(ini: Ini) -> Seq<(Option<Seq<char>>, Seq<(Seq<char>, Seq<char>)>)>;

/// The pairs of a section after `key` is set to `value`: every pair that
/// had this key is dropped and the new pair goes to the end.
pub open spec fn set_in_pairs(
    pairs: Seq<(Seq<char>, Seq<char>)>,
    key: Seq<char>,
    value: Seq<char>,
) -> Seq<(Seq<char>, Seq<char>)> {
    pairs.filter(has_other_key(key)).push((key, value))
}

/// Holds of the pairs whose key is not `key`.
pub open spec fn has_other_key(key: Seq<char>) -> spec_fn((Seq<char>, Seq<char>)) -> bool {
    |pair: (Seq<char>, Seq<char>)| pair.0 != key
}

/// The sections after `key` is set to `value` in the section `name`: the
/// first section of that name takes the pair; where there is none, a new
/// section with this one pair is added at the end.
pub open spec fn set_in_sections(
    sections: Seq<(Option<Seq<char>>, Seq<(Seq<char>, Seq<char>)>)>,
    name: Seq<char>,
    key: Seq<char>,
    value: Seq<char>,
) -> Seq<(Option<Seq<char>>, Seq<(Seq<char>, Seq<char>)>)>
    decreases sections.len(),
{
    if sections.len() == 0 {
        seq![(Some(name), seq![(key, value)])]
    } else if sections[0].0 == Some(name) {
        seq![(Some(name), set_in_pairs(sections[0].1, key, value))] + sections.skip(1)
    } else {
        seq![sections[0]] + set_in_sections(sections.skip(1), name, key, value)
    }
}

/// Setting a key that the section does not hold yet appends the pair.
pub proof fn lemma_set_fresh_key(
    pairs: Seq<(Seq<char>, Seq<char>)>,
    key: Seq<char>,
    value: Seq<char>,
)
    requires
        forall|i: int| 0 <= i < pairs.len() ==> (#[trigger] pairs[i]).0 != key,
    ensures
        set_in_pairs(pairs, key, value) == pairs.push((key, value)),
{
    lemma_filter_keeps_all(pairs, has_other_key(key));
}

proof fn lemma_filter_keeps_all(
    pairs: Seq<(Seq<char>, Seq<char>)>,
    keep: spec_fn((Seq<char>, Seq<char>)) -> bool,
)
    requires
        forall|i: int| 0 <= i < pairs.len() ==> keep(#[trigger] pairs[i]),
    ensures
        pairs.filter(keep) == pairs,
    decreases pairs.len(),
{
    reveal(Seq::filter);
    if pairs.len() > 0 {
        lemma_filter_keeps_all(pairs.drop_last(), keep);
        assert(pairs.drop_last().push(pairs.last()) =~= pairs);
    }
}

/// Setting a key in a section that the document does not hold yet appends
/// a section with that one pair.
pub proof fn lemma_set_new_section(
    sections: Seq<(Option<Seq<char>>, Seq<(Seq<char>, Seq<char>)>)>,
    name: Seq<char>,
    key: Seq<char>,
    value: Seq<char>,
)
    requires
        forall|i: int| 0 <= i < sections.len() ==> (#[trigger] sections[i]).0 != Some(name),
    ensures
        set_in_sections(sections, name, key, value) == sections.push(
            (Some(name), seq![(key, value)]),
        ),
    decreases sections.len(),
{
    if sections.len() > 0 {
        let rest = sections.skip(1);
        assert forall|i: int| 0 <= i < rest.len() implies (#[trigger] rest[i]).0 != Some(name) by {
            assert(rest[i] == sections[i + 1]);
        }
        lemma_set_new_section(rest, name, key, value);
        assert(seq![sections[0]] + rest.push((Some(name), seq![(key, value)])) =~= sections.push(
            (Some(name), seq![(key, value)]),
        ));
    } else {
        assert(seq![(Some(name), seq![(key, value)])] =~= sections.push(
            (Some(name), seq![(key, value)]),
        ));
    }
}

/// Setting a key in a section that the document holds changes the first
/// section of that name and no other.
pub proof fn lemma_set_existing_section(
    sections: Seq<(Option<Seq<char>>, Seq<(Seq<char>, Seq<char>)>)>,
    at: int,
    name: Seq<char>,
    key: Seq<char>,
    value: Seq<char>,
)
    requires
        0 <= at < sections.len(),
        sections[at].0 == Some(name),
        forall|i: int| 0 <= i < at ==> (#[trigger] sections[i]).0 != Some(name),
    ensures
        set_in_sections(sections, name, key, value) == sections.update(
            at,
            (Some(name), set_in_pairs(sections[at].1, key, value)),
        ),
    decreases at,
{
    let changed = (Some(name), set_in_pairs(sections[at].1, key, value));
    let rest = sections.skip(1);
    if at == 0 {
        assert(seq![changed] + rest =~= sections.update(at, changed));
    } else {
        assert(sections[0].0 != Some(name));
        assert(rest[at - 1] == sections[at]);
        assert forall|i: int| 0 <= i < at - 1 implies (#[trigger] rest[i]).0 != Some(name) by {
            assert(rest[i] == sections[i + 1]);
        }
        lemma_set_existing_section(rest, at - 1, name, key, value);
        assert(seq![sections[0]] + rest.update(at - 1, changed) =~= sections.update(at, changed));
    }
}

/// `ini::Ini::new`: a document whose only section is the general one,
/// and that one empty.
#[verifier::external_body]
fn ini_new() -> (ini: Ini)
    ensures
        ini_sections(ini) == seq![(None::<Seq<char>>, Seq::<(Seq<char>, Seq<char>)>::empty())],
{
    Ini::new()
}

/// `ini::Ini::with_section` with `Some(name)`, then
/// `ini::SectionSetter::set` with `key` and `value`: the pair is set in
/// the first section of that name, which is added at the end where the
/// document has none; there it replaces every pair of the same key and
/// stands last.  This is [`set_in_sections`].
#[verifier::external_body]
fn ini_set(ini: &mut Ini, name: &str, key: &str, value: &str)
    ensures
        ini_sections(*final(ini)) == set_in_sections(ini_sections(*old(ini)), name@, key@, value@),
{
    ini.with_section(Some(name)).set(key, value);
}

/// The bytes that `ini::Ini::write_to_opt` writes for a document with
/// these sections when it escapes by its default policy, separates key
/// and value by `=` and ends every line with a line feed.
pub uninterp spec fn ini_document(sections: Seq<(Option<Seq<char>>, Seq<(Seq<char>, Seq<char>)>)>) -> Seq<u8>;

/// What `ini::Ini::read_from` makes of a document: the sections of the
/// result, or `None` where it reports an error (the bytes are no UTF-8
/// text, or the text is malformed).
pub uninterp spec fn ini_parse(document: Seq<u8>) -> Option<Seq<(Option<Seq<char>>, Seq<(Seq<char>, Seq<char>)>)>>;

/// `ini::Ini::write_to_opt` into a byte buffer, with the default options
/// but for the line separator, which is the line feed on every platform:
/// the bytes are [`ini_document`] of the sections.  Writing into a
/// `Vec<u8>` cannot fail, so the writer's result is dropped.
#[verifier::external_body]
pub(crate) fn ini_write(ini: &Ini) -> (document: Vec<u8>)
    ensures
        document@ == ini_document(ini_sections(*ini)),
{
    let mut document = Vec::new();
    let option = WriteOption { line_separator: LineSeparator::CR, ..WriteOption::default() };
    let _ = ini.write_to_opt(&mut document, option);
    document
}

/// `ini::Ini::read_from` on a byte slice: it succeeds exactly where
/// [`ini_parse`] gives sections, and the document then holds them.
#[verifier::external_body]
pub(crate) fn ini_read(document: &[u8]) -> (loaded: Result<Ini, ini::Error>)
    ensures
        match loaded {
            Ok(ini) => ini_parse(document@) == Some(ini_sections(ini)),
            Err(_) => ini_parse(document@) is None,
        },
{
    let mut reader = document;
    Ini::read_from(&mut reader)
}

/// The three bytes that mark a file as UTF-8 text.
pub open spec fn byte_order_mark() -> Seq<u8> {
    seq![0xEFu8, 0xBBu8, 0xBFu8]
}

/// A file's bytes without a leading byte-order mark.
pub open spec fn without_byte_order_mark(bytes: Seq<u8>) -> Seq<u8> {
    if bytes.len() >= 3 && bytes.take(3) == byte_order_mark() {
        bytes.skip(3)
    } else {
        bytes
    }
}

/// What a configuration file with these bytes holds: a byte-order mark
/// at its start is skipped, the rest is parsed.
pub open spec fn parsed_configuration(bytes: Seq<u8>) -> Option<Seq<(Option<Seq<char>>, Seq<(Seq<char>, Seq<char>)>)>> {
    ini_parse(without_byte_order_mark(bytes))
}

/// Drops a leading byte-order mark, as editors on some platforms write
/// one.
pub fn strip_byte_order_mark(bytes: &[u8]) -> (rest: &[u8])
    ensures
        rest@ == without_byte_order_mark(bytes@),
{
    if bytes.len() >= 3 && bytes[0] == 0xEF && bytes[1] == 0xBB && bytes[2] == 0xBF {
        assert(bytes@.take(3) =~= byte_order_mark());
        assert(bytes@.skip(3) =~= bytes@.subrange(3, bytes@.len() as int));
        slice_subrange(bytes, 3, bytes.len())
    } else {
        assert(bytes@.len() >= 3 ==> bytes@.take(3) != byte_order_mark()) by {
            if bytes@.len() >= 3 {
                assert(bytes@.take(3)[0] == bytes@[0]);
                assert(bytes@.take(3)[1] == bytes@[1]);
                assert(bytes@.take(3)[2] == bytes@[2]);
            }
        }
        bytes
    }
}

/// Reads the bytes of a configuration file: it succeeds exactly where
/// [`parsed_configuration`] gives sections, and the document then holds
/// them.
pub fn parse_configuration(bytes: &[u8]) -> (loaded: Result<Ini, ini::Error>)
    ensures
        match loaded {
            Ok(ini) => parsed_configuration(bytes@) == Some(ini_sections(ini)),
            Err(_) => parsed_configuration(bytes@) is None,
        },
{
    ini_read(strip_byte_order_mark(bytes))
}

/// The configuration of a freshly initialised repository: the empty
/// general section, then `core` with its three settings.
pub open spec fn default_configuration() -> Seq<(Option<Seq<char>>, Seq<(Seq<char>, Seq<char>)>)> {
    seq![
        (None, Seq::empty()),
        (
            Some("core"@),
            seq![
                ("repositoryformatversion"@, "0"@),
                ("filemode"@, "false"@),
                ("bare"@, "false"@),
            ],
        ),
    ]
}

/// Builds the configuration that every new repository starts with.
pub fn default_repo_config() -> (ini: Ini)
    ensures
        ini_sections(ini) == default_configuration(),
{
    let mut ini = ini_new();
    let ghost general = (None::<Seq<char>>, Seq::<(Seq<char>, Seq<char>)>::empty());
    let ghost version = ("repositoryformatversion"@, "0"@);
    let ghost filemode = ("filemode"@, "false"@);
    let ghost bare = ("bare"@, "false"@);
    proof {
        reveal_strlit("repositoryformatversion");
        reveal_strlit("filemode");
        reveal_strlit("bare");
        assert(version.0.len() == 23 && filemode.0.len() == 8 && bare.0.len() == 4);
        lemma_set_new_section(seq![general], "core"@, version.0, version.1);
    }
    ini_set(&mut ini, "core", "repositoryformatversion", "0");
    assert(ini_sections(ini) =~= seq![general, (Some("core"@), seq![version])]);
    proof {
        lemma_set_existing_section(ini_sections(ini), 1, "core"@, filemode.0, filemode.1);
        lemma_set_fresh_key(seq![version], filemode.0, filemode.1);
        assert(seq![version].push(filemode) =~= seq![version, filemode]);
    }
    ini_set(&mut ini, "core", "filemode", "false");
    assert(ini_sections(ini) =~= seq![general, (Some("core"@), seq![version, filemode])]);
    proof {
        lemma_set_existing_section(ini_sections(ini), 1, "core"@, bare.0, bare.1);
        lemma_set_fresh_key(seq![version, filemode], bare.0, bare.1);
        assert(seq![version, filemode].push(bare) =~= seq![version, filemode, bare]);
    }
    ini_set(&mut ini, "core", "bare", "false");
    assert(ini_sections(ini) =~= default_configuration());
    ini
}

/// The bytes of the configuration file of a new repository.
pub open spec fn default_config_document() -> Seq<u8> {
    ini_document(default_configuration())
}

/// Serialises the default configuration: the bytes are the same every
/// time and on every platform.
pub fn default_config_bytes() -> (document: Vec<u8>)
    ensures
        document@ == default_config_document(),
{
    let ini = default_repo_config();
    ini_write(&ini)
}

} // verus!
