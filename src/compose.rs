use vstd::prelude::*;

use crate::index::TemplateIndex;

verus! {

/// The line that opens the section of a template.
pub open spec fn header(name: Seq<char>) -> Seq<char> {
    "### "@ + name + " ###\n"@
}

/// What goes before the header of the `i`-th section: a blank line, except
/// before the first.
pub open spec fn separator(i: int) -> Seq<char> {
    if i > 0 {
        "\n"@
    } else {
        Seq::empty()
    }
}

/// The `i`-th section of the document: separator, header and body.
pub open spec fn section(m: Map<Seq<char>, Seq<char>>, names: Seq<String>, i: int) -> Seq<char> {
    separator(i) + header(names[i]@) + m[names[i]@]
}

/// The first `n` sections, in order.
pub open spec fn composed_upto(m: Map<Seq<char>, Seq<char>>, names: Seq<String>, n: int) -> Seq<
    char,
>
    decreases n,
{
    if n <= 0 {
        Seq::empty()
    } else {
        composed_upto(m, names, n - 1) + section(m, names, n - 1)
    }
}

/// The document for the requested names.
pub open spec fn composed(m: Map<Seq<char>, Seq<char>>, names: Seq<String>) -> Seq<char> {
    composed_upto(m, names, names.len() as int)
}

/// Every requested name has a template.
pub open spec fn all_found(m: Map<Seq<char>, Seq<char>>, names: Seq<String>) -> bool {
    forall|i: int| 0 <= i < names.len() ==> m.contains_key(#[trigger] names[i]@)
}

/// `i` is the position of the first requested name without a template.
pub open spec fn first_missing(m: Map<Seq<char>, Seq<char>>, names: Seq<String>, i: int) -> bool {
    &&& 0 <= i < names.len()
    &&& !m.contains_key(names[i]@)
    &&& forall|j: int| 0 <= j < i ==> m.contains_key(#[trigger] names[j]@)
}

proof fn lemma_prefix(m: Map<Seq<char>, Seq<char>>, names: Seq<String>, n: int, k: int)
    requires
        0 <= n <= k,
    ensures
        composed_upto(m, names, n).len() <= composed_upto(m, names, k).len(),
        composed_upto(m, names, k).subrange(0, composed_upto(m, names, n).len() as int)
            == composed_upto(m, names, n),
    decreases k - n,
{
    if n < k {
        lemma_prefix(m, names, n, k - 1);
        let a = composed_upto(m, names, n);
        let b = composed_upto(m, names, k - 1);
        assert(composed_upto(m, names, k) == b + section(m, names, k - 1));
        assert((b + section(m, names, k - 1)).subrange(0, a.len() as int) =~= b.subrange(
            0,
            a.len() as int,
        ));
    }
}

/// Each template appears in the document exactly as stored: after the first
/// `i` sections, the separator and the header of the `i`-th name, the
/// document holds that name's template verbatim.
pub proof fn lemma_body_verbatim(m: Map<Seq<char>, Seq<char>>, names: Seq<String>, i: int)
    requires
        0 <= i < names.len(),
    ensures
        ({
            let start = (composed_upto(m, names, i).len() + separator(i).len() + header(
                names[i]@,
            ).len()) as int;
            let body = m[names[i]@];
            &&& start + body.len() <= composed(m, names).len()
            &&& composed(m, names).subrange(start, start + body.len()) == body
        }),
{
    let before = composed_upto(m, names, i);
    let upto = composed_upto(m, names, i + 1);
    let start = (before.len() + separator(i).len() + header(names[i]@).len()) as int;
    let body = m[names[i]@];
    assert(upto == before + (separator(i) + header(names[i]@) + body));
    assert(upto.subrange(start, start + body.len()) =~= body);
    lemma_prefix(m, names, i + 1, names.len() as int);
    let all = composed(m, names);
    assert(all.subrange(0, upto.len() as int) == upto);
    let a = all.subrange(start, start + body.len());
    let b = upto.subrange(start, start + body.len());
    assert(a =~= b) by {
        assert forall|x: int| 0 <= x < body.len() implies #[trigger] a[x] == b[x] by {
            assert(all.subrange(0, upto.len() as int)[start + x] == all[start + x]);
        }
    }
}

/// A requested template that the index does not hold.
pub struct NotFoundError {
    pub name: String,
}

impl NotFoundError {
    /// The text that reports the error.
    pub fn message(&self) -> (r: String)
        ensures
            r@ == self.name@ + " is not found in gitignore repository."@,
    {
        let mut r = self.name.clone();
        r.append(" is not found in gitignore repository.");
        r
    }
}

/// Puts together the templates of the requested names, in the order given.
/// Each section is the header `### <name> ###`, then the template exactly as
/// stored; a blank line stands before every section but the first. Where a
/// name has no template, nothing is produced and the first such name is
/// reported.
pub fn gen_gitignore(data: &TemplateIndex, args: &[String]) -> (r: Result<String, NotFoundError>)
    requires
        data.wf(),
    ensures
        r is Ok <==> all_found(data@, args@),
        r matches Ok(s) ==> s@ == composed(data@, args@),
        r matches Err(e) ==> exists|i: int| first_missing(data@, args@, i) && e.name@ == args@[i]@,
{
    let mut gitignore = String::new();
    let mut i: usize = 0;
    while i < args.len()
        invariant
            data.wf(),
            i <= args@.len(),
            forall|j: int| 0 <= j < i ==> data@.contains_key(#[trigger] args@[j]@),
            gitignore@ == composed_upto(data@, args@, i as int),
        decreases args@.len() - i,
    {
        let arg = &args[i];
        match data.get(arg) {
            Some(content) => {
                if i > 0 {
                    gitignore.append("\n");
                }
                gitignore.append("### ");
                gitignore.append(arg.as_str());
                gitignore.append(" ###\n");
                gitignore.append(content.as_str());
                assert(gitignore@ == composed_upto(data@, args@, i + 1));
            },
            None => {
                assert(first_missing(data@, args@, i as int));
                return Err(NotFoundError { name: arg.clone() });
            },
        }
        i = i + 1;
    }
    Ok(gitignore)
}

} // verus!
