use crate::db::cache::guarded;
use crate::db::db::{Database, Db};
use crate::db::ir::{rooted, SchemaFile};
use crate::lexer::{lemma_lex_lossless, lex, tokenize};
use crate::parser::laws::law_text_round_trip;
use crate::parser::parser::Parsed;
use crate::parser::schema::{syntax_errors, syntax_tree};
use crate::rope::{rope_slice_all, rope_text};
use crate::source::RopeSource;
use vstd::prelude::*;

verus! {

/// The parse of a file of a database.
///
/// A parse that the database remembers of the text as it is now is handed
/// out again, and the database stays as it is. Otherwise the text is
/// lexed and parsed, with the trees built through the store that the
/// database's files share, and the database remembers the result in place
/// of what it remembered of the file before.
pub fn parse(db: &mut Database, source: SchemaFile) -> (parsed: Parsed)
    requires
        old(db).wf(),
        old(db).has(source),
        old(db)@[source.index()].parsable(),
    ensures
        final(db).wf(),
        final(db).store() == old(db).store(),
        final(db)@ == old(db)@.update(source.index(), old(db)@[source.index()].parsed()),
        parsed.tree() == syntax_tree(lex(old(db)@[source.index()].text)),
        parsed.faults() == syntax_errors(lex(old(db)@[source.index()].text)),
        rooted(parsed.tree(), old(db)@[source.index()].text),
{
    let ghost before = db@;
    proof {
        law_text_round_trip(before[source.index()].text);
    }
    match db.recall(source) {
        Some(parsed) => {
            proof {
                assert(before[source.index()].wf());
                assert(before.update(source.index(), before[source.index()].parsed()) =~= before);
            }
            parsed
        },
        None => {
            let text = db.text(source);
            let cache = db.cache();
            let mut guard = cache.node();
            proof {
                lemma_lex_lossless(rope_text(text));
            }
            let tokens = tokenize(RopeSource::new(rope_slice_all(&text)));
            let parsed = crate::parser::parser::parse(tokens, guarded(&mut guard));
            db.remember(source, parsed.clone());
            parsed
        },
    }
}

} // verus!
