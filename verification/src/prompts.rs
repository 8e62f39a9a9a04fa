//! Prompts: serialized snippets of a module's declarations, each with an
//! identifier, a kind, its rendered source text, and the identifiers of the
//! type-alias prompts it depends on.  A `PromptsWriter` builds one prompt at
//! a time and files it under the enclosing scope.

use vstd::prelude::*;
use vstd::string::StringExecFns;
use crate::ast::names_view;

verus! {

/// Why a prompt could not be filed: its identifier is empty.
#[derive(Debug)]
pub enum InvalidPromptError {
    InvalidId(String),
}

impl InvalidPromptError {
    /// A readable account of the error.
    pub fn message(&self) -> (r: String)
        ensures
            match self {
                InvalidPromptError::InvalidId(id) => r@ == "invalid id: "@ + id@,
            },
    {
        match self {
            InvalidPromptError::InvalidId(id) => {
                let mut s = String::from_str("invalid id: ");
                s.append(id.as_str());
                s
            },
        }
    }
}

/// A collection of prompts, in the order they were filed.
#[derive(Debug)]
pub struct Prompts(pub Vec<Prompt>);

/// The rendered source text of a prompt.
#[derive(Debug)]
pub struct PromptFmt(pub String);

/// The kind of declaration a prompt was built from.
#[derive(Clone, Copy, PartialEq, Eq, Structural, Debug)]
pub enum PromptAstType {
    MethodDecl,
    ClassDecl,
    TypeAliasDecl,
    FnDecl,
}

/// The identifier of a prompt.
#[derive(Debug)]
pub struct PromptId(pub String);

/// How a prompt's text is to be read.
#[derive(Clone, Copy, PartialEq, Eq, Structural, Debug)]
pub enum PromptType {
    PlainText,
    TypeScript,
}

/// One prompt: its kind of text, its rendered text, its identifier, the
/// kind of declaration it came from, and the identifiers of the prompts it
/// depends on.
#[derive(Debug)]
pub struct Prompt {
    pub ty: PromptType,
    pub fmt: PromptFmt,
    pub id: PromptId,
    pub ast_ty: Option<PromptAstType>,
    pub context: Vec<PromptId>,
}

/// The mathematical shadow of a prompt.
pub ghost struct PromptModel {
    pub ty: PromptType,
    pub fmt: Seq<char>,
    pub id: Seq<char>,
    pub ast_ty: Option<PromptAstType>,
    pub context: Seq<Seq<char>>,
}

/// The identifiers of a context list.
pub open spec fn context_view(ids: Seq<PromptId>) -> Seq<Seq<char>> {
    ids.map_values(|p: PromptId| p.0@)
}

impl Prompt {
    pub open spec fn model(self) -> PromptModel {
        PromptModel {
            ty: self.ty,
            fmt: self.fmt.0@,
            id: self.id.0@,
            ast_ty: self.ast_ty,
            context: context_view(self.context@),
        }
    }
}

/// The model of an empty, plain-text prompt.
pub open spec fn default_prompt_model() -> PromptModel {
    PromptModel {
        ty: PromptType::PlainText,
        fmt: Seq::<char>::empty(),
        id: Seq::<char>::empty(),
        ast_ty: None,
        context: Seq::<Seq<char>>::empty(),
    }
}

impl Default for Prompt {
    /// An empty plain-text prompt with no identifier and no context.
    fn default() -> (r: Self)
        ensures
            r.model() == default_prompt_model(),
    {
        let r = Prompt {
            ty: PromptType::PlainText,
            fmt: PromptFmt(String::new()),
            id: PromptId(String::new()),
            ast_ty: None,
            context: Vec::new(),
        };
        proof {
            assert(context_view(r.context@) =~= Seq::<Seq<char>>::empty());
        }
        r
    }
}

/// The models of a prompt list.
pub open spec fn prompts_view(ps: Seq<Prompt>) -> Seq<PromptModel> {
    ps.map_values(|p: Prompt| p.model())
}

/// The scope prefix put before a filed identifier: the enclosing scope
/// names joined by dots.
pub open spec fn scope_join(ss: Seq<Seq<char>>) -> Seq<char>
    decreases ss.len(),
{
    if ss.len() == 0 {
        Seq::<char>::empty()
    } else {
        ss[0] + scope_join_rest(ss.drop_first())
    }
}

pub open spec fn scope_join_rest(ss: Seq<Seq<char>>) -> Seq<char>
    decreases ss.len(),
{
    if ss.len() == 0 {
        Seq::<char>::empty()
    } else {
        "."@ + ss[0] + scope_join_rest(ss.drop_first())
    }
}

/// The identifier a prompt is filed under: the builder's identifier,
/// prefixed by the joined scope when a scope is open.
pub open spec fn scoped_id(scope: Seq<Seq<char>>, id: Seq<char>) -> Seq<char> {
    if scope.len() == 0 {
        id
    } else {
        scope_join(scope) + "."@ + id
    }
}

proof fn lemma_scope_join_rest_snoc(ss: Seq<Seq<char>>, x: Seq<char>)
    ensures
        scope_join_rest(ss.push(x)) == scope_join_rest(ss) + ("."@ + x),
    decreases ss.len(),
{
    if ss.len() == 0 {
        assert(ss.push(x).drop_first() =~= Seq::<Seq<char>>::empty());
        assert(ss.push(x)[0] == x);
        assert(scope_join_rest(Seq::<Seq<char>>::empty()) =~= Seq::<char>::empty());
        assert("."@ + x + Seq::<char>::empty() =~= "."@ + x);
        assert(scope_join_rest(ss) + ("."@ + x) =~= "."@ + x);
    } else {
        assert(ss.push(x).drop_first() =~= ss.drop_first().push(x));
        lemma_scope_join_rest_snoc(ss.drop_first(), x);
        assert(ss.push(x)[0] == ss[0]);
        assert("."@ + ss[0] + (scope_join_rest(ss.drop_first()) + ("."@ + x)) =~= ("."@ + ss[0]
            + scope_join_rest(ss.drop_first())) + ("."@ + x));
    }
}

/// Builds prompts one at a time into an owned buffer.
#[derive(Debug)]
pub struct PromptsWriter {
    pub buf: Vec<Prompt>,
    pub modified: bool,
    pub scope: Vec<String>,
    pub builder: Prompt,
}

impl PromptsWriter {
    /// A writer with an empty buffer, no open scope and a fresh builder.
    pub fn new() -> (r: Self)
        ensures
            r.buf@.len() == 0,
            !r.modified,
            r.scope@.len() == 0,
            r.builder.model() == default_prompt_model(),
    {
        PromptsWriter {
            buf: Vec::new(),
            modified: false,
            scope: Vec::new(),
            builder: Prompt::default(),
        }
    }

    /// Set the kind of text of the prompt being built.
    pub fn set_type(&mut self, prompt_type: PromptType)
        ensures
            final(self).builder.model() == (PromptModel {
                ty: prompt_type,
                ..old(self).builder.model()
            }),
            final(self).modified,
            final(self).buf == old(self).buf,
            final(self).scope == old(self).scope,
    {
        self.modified = true;
        self.builder.ty = prompt_type;
    }

    /// Set the rendered text of the prompt being built.
    pub fn set_fmt(&mut self, fmt: &str) -> (r: Result<(), InvalidPromptError>)
        ensures
            r is Ok,
            final(self).builder.model() == (PromptModel { fmt: fmt@, ..old(self).builder.model() }),
            final(self).modified,
            final(self).buf == old(self).buf,
            final(self).scope == old(self).scope,
    {
        self.modified = true;
        self.builder.fmt = PromptFmt(fmt.to_owned());
        Ok(())
    }

    /// Append identifiers to the context of the prompt being built.
    pub fn add_to_context(&mut self, ids: &Vec<String>) -> (r: Result<(), InvalidPromptError>)
        ensures
            r is Ok,
            final(self).builder.model() == (PromptModel {
                context: old(self).builder.model().context + names_view(ids@),
                ..old(self).builder.model()
            }),
            final(self).modified == old(self).modified,
            final(self).buf == old(self).buf,
            final(self).scope == old(self).scope,
    {
        let ghost pre = context_view(self.builder.context@);
        let mut i: usize = 0;
        proof {
            assert(names_view(ids@.take(0)) =~= Seq::<Seq<char>>::empty());
            assert(context_view(self.builder.context@) =~= pre + names_view(ids@.take(0)));
        }
        while i < ids.len()
            invariant
                self.modified == old(self).modified,
                self.buf == old(self).buf,
                self.scope == old(self).scope,
                self.builder.ty == old(self).builder.ty,
                self.builder.fmt == old(self).builder.fmt,
                self.builder.id == old(self).builder.id,
                self.builder.ast_ty == old(self).builder.ast_ty,
                pre == context_view(old(self).builder.context@),
                0 <= i <= ids@.len(),
                context_view(self.builder.context@) == pre + names_view(ids@.take(i as int)),
            decreases ids@.len() - i,
        {
            let ghost mid = context_view(self.builder.context@);
            self.builder.context.push(PromptId(ids[i].clone()));
            proof {
                assert(context_view(self.builder.context@) =~= mid.push(ids@[i as int]@));
                assert(names_view(ids@.take(i + 1)) =~= names_view(ids@.take(i as int)).push(
                    ids@[i as int]@,
                ));
                assert(context_view(self.builder.context@) =~= pre + names_view(ids@.take(i + 1)));
            }
            i = i + 1;
        }
        proof {
            assert(ids@.take(ids@.len() as int) =~= ids@);
        }
        Ok(())
    }

    /// Open a scope: prompts filed from now on carry this name as a prefix.
    pub fn enter_scope(&mut self, scope: &str)
        ensures
            final(self).scope@.len() == old(self).scope@.len() + 1,
            names_view(final(self).scope@) == names_view(old(self).scope@).push(scope@),
            final(self).buf == old(self).buf,
            final(self).modified == old(self).modified,
            final(self).builder == old(self).builder,
    {
        let ghost pre = names_view(self.scope@);
        self.scope.push(scope.to_owned());
        proof {
            assert(names_view(self.scope@) =~= pre.push(scope@));
        }
    }

    /// Close the innermost scope, handing its name back.
    pub fn exit_scope(&mut self) -> (r: Option<String>)
        ensures
            old(self).scope@.len() == 0 ==> r is None && final(self).scope@ == old(self).scope@,
            old(self).scope@.len() > 0 ==> r == Some(old(self).scope@.last())
                && final(self).scope@ == old(self).scope@.drop_last(),
            final(self).buf == old(self).buf,
            final(self).modified == old(self).modified,
            final(self).builder == old(self).builder,
    {
        self.scope.pop()
    }

    /// Set the identifier of the prompt being built.
    pub fn set_id(&mut self, id: &str)
        ensures
            final(self).builder.model() == (PromptModel { id: id@, ..old(self).builder.model() }),
            final(self).modified,
            final(self).buf == old(self).buf,
            final(self).scope == old(self).scope,
    {
        self.modified = true;
        self.builder.id = PromptId(id.to_owned());
    }

    /// Set the kind of declaration of the prompt being built.
    pub fn set_ast_ty(&mut self, ast_ty: PromptAstType)
        ensures
            final(self).builder.model() == (PromptModel {
                ast_ty: Some(ast_ty),
                ..old(self).builder.model()
            }),
            final(self).modified,
            final(self).buf == old(self).buf,
            final(self).scope == old(self).scope,
    {
        self.modified = true;
        self.builder.ast_ty = Some(ast_ty);
    }

    /// File the prompt being built: nothing happens if nothing was set; an
    /// empty identifier is refused; otherwise the prompt goes to the buffer
    /// under its scoped identifier and the builder is reset.
    pub fn push(&mut self) -> (r: Result<(), InvalidPromptError>)
        ensures
            !old(self).modified ==> r is Ok && *final(self) == *old(self),
            old(self).modified && old(self).builder.id.0@.len() == 0 ==> r is Err && *final(self)
                == *old(self),
            old(self).modified && old(self).builder.id.0@.len() > 0 ==> r is Ok
                && !final(self).modified && final(self).scope == old(self).scope
                && final(self).builder.model()
                == default_prompt_model() && prompts_view(final(self).buf@) == prompts_view(
                old(self).buf@,
            ).push(
                (PromptModel {
                    id: scoped_id(names_view(old(self).scope@), old(self).builder.model().id),
                    ..old(self).builder.model()
                }),
            ),
    {
        if !self.modified {
            return Ok(());
        }
        if self.builder.id.0.as_str().is_empty() {
            return Err(InvalidPromptError::InvalidId(self.builder.id.0.clone()));
        }
        let mut full_id = String::new();
        if self.scope.len() > 0 {
            let mut k: usize = 0;
            proof {
                assert(names_view(self.scope@).take(0) =~= Seq::<Seq<char>>::empty());
            }
            while k < self.scope.len()
                invariant
                    self.scope@ == old(self).scope@,
                    0 <= k <= self.scope@.len(),
                    k == 0 ==> full_id@ == Seq::<char>::empty(),
                    k == 1 ==> full_id@ == names_view(self.scope@)[0],
                    k > 1 ==> full_id@ == names_view(self.scope@)[0] + scope_rest_prefix(
                        names_view(self.scope@),
                        k as int,
                    ),
                decreases self.scope@.len() - k,
            {
                if k > 0 {
                    full_id.append(".");
                }
                full_id.append(self.scope[k].as_str());
                proof {
                    let sv = names_view(self.scope@);
                    if k == 1 {
                        assert(scope_rest_prefix(sv, 1) =~= Seq::<char>::empty());
                        assert(Seq::<char>::empty() + ("."@ + sv[1]) =~= "."@ + sv[1]);
                        assert(scope_rest_prefix(sv, 2) =~= "."@ + sv[1]);
                        assert(full_id@ =~= sv[0] + scope_rest_prefix(sv, 2));
                    } else if k > 1 {
                        assert(scope_rest_prefix(sv, k + 1) =~= scope_rest_prefix(sv, k as int) + (
                        "."@ + sv[k as int]));
                        assert(full_id@ =~= sv[0] + scope_rest_prefix(sv, k + 1));
                    }
                }
                k = k + 1;
            }
            proof {
                lemma_scope_rest_prefix_full(names_view(self.scope@));
                if self.scope@.len() == 1 {
                    assert(scope_join(names_view(self.scope@)) =~= names_view(self.scope@)[0]
                        + scope_join_rest(names_view(self.scope@).drop_first()));
                    assert(names_view(self.scope@).drop_first() =~= Seq::<Seq<char>>::empty());
                    assert(scope_join_rest(Seq::<Seq<char>>::empty()) =~= Seq::<char>::empty());
                    assert(full_id@ =~= scope_join(names_view(self.scope@)));
                } else {
                    assert(full_id@ =~= scope_join(names_view(self.scope@)));
                }
            }
            full_id.append(".");
            full_id.append(self.builder.id.0.as_str());
            proof {
                assert(full_id@ =~= scoped_id(
                    names_view(self.scope@),
                    old(self).builder.model().id,
                ));
            }
        } else {
            full_id.append(self.builder.id.0.as_str());
            proof {
                assert(Seq::<char>::empty() + self.builder.id.0@ =~= self.builder.id.0@);
            }
        }
        let ghost bufpre = prompts_view(self.buf@);
        let mut context: Vec<PromptId> = Vec::new();
        let mut j: usize = 0;
        proof {
            assert(context_view(context@) =~= context_view(self.builder.context@).take(0));
        }
        while j < self.builder.context.len()
            invariant
                self.buf@ == old(self).buf@,
                self.builder == old(self).builder,
                self.scope@ == old(self).scope@,
                0 <= j <= self.builder.context@.len(),
                context_view(context@) == context_view(self.builder.context@).take(j as int),
            decreases self.builder.context@.len() - j,
        {
            let ghost mid = context_view(context@);
            context.push(PromptId(self.builder.context[j].0.clone()));
            proof {
                assert(context_view(context@) =~= mid.push(
                    context_view(self.builder.context@)[j as int],
                ));
                assert(context_view(self.builder.context@).take(j + 1) =~= context_view(
                    self.builder.context@,
                ).take(j as int).push(context_view(self.builder.context@)[j as int]));
            }
            j = j + 1;
        }
        proof {
            assert(context_view(self.builder.context@).take(self.builder.context@.len() as int)
                =~= context_view(self.builder.context@));
        }
        let prompt = Prompt {
            ty: self.builder.ty,
            fmt: PromptFmt(self.builder.fmt.0.clone()),
            id: PromptId(full_id),
            ast_ty: self.builder.ast_ty,
            context,
        };
        self.buf.push(prompt);
        self.builder = Prompt::default();
        self.modified = false;
        proof {
            assert(prompts_view(self.buf@) =~= bufpre.push(
                PromptModel {
                    id: scoped_id(names_view(old(self).scope@), old(self).builder.model().id),
                    ..old(self).builder.model()
                },
            ));
        }
        Ok(())
    }
}

/// The joined form of scope names 1 through `k - 1`, each preceded by a
/// dot.
pub open spec fn scope_rest_prefix(ss: Seq<Seq<char>>, k: int) -> Seq<char>
    decreases k,
{
    if k <= 1 {
        Seq::<char>::empty()
    } else {
        scope_rest_prefix(ss, k - 1) + ("."@ + ss[k - 1])
    }
}

proof fn lemma_scope_rest_prefix_is_rest(ss: Seq<Seq<char>>, k: int)
    requires
        1 <= k <= ss.len(),
    ensures
        scope_rest_prefix(ss, k) == scope_join_rest(ss.drop_first().take(k - 1)),
    decreases k,
{
    if k == 1 {
        assert(ss.drop_first().take(0) =~= Seq::<Seq<char>>::empty());
        assert(scope_join_rest(Seq::<Seq<char>>::empty()) =~= Seq::<char>::empty());
    } else {
        lemma_scope_rest_prefix_is_rest(ss, k - 1);
        let tail = ss.drop_first();
        assert(tail.take(k - 1) =~= tail.take(k - 2).push(tail[k - 2]));
        lemma_scope_join_rest_snoc(tail.take(k - 2), tail[k - 2]);
        assert(tail[k - 2] == ss[k - 1]);
    }
}

/// Once the whole scope is joined, the iterative form equals the recursive
/// join.
proof fn lemma_scope_rest_prefix_full(ss: Seq<Seq<char>>)
    ensures
        ss.len() >= 1 ==> ss[0] + scope_rest_prefix(ss, ss.len() as int) == scope_join(ss),
{
    if ss.len() >= 1 {
        lemma_scope_rest_prefix_is_rest(ss, ss.len() as int);
        assert(ss.drop_first().take(ss.len() - 1) =~= ss.drop_first());
    }
}

} // verus!
