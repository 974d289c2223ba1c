//! The casing of aliases.
use crate::ast::{Item, TypeAliasDecl};
use crate::describe::{describe_type, shown};
use crate::diagnostics::{diag, report_hint, Diag, Diagnostic};
use crate::lower::{lowered, Sc, Scope};
use crate::representation::{is_heap, is_pascal_case, kind_of_alloc, pascal_case};
use crate::text::cat5;
use crate::ty::{Ty, Type};
use vstd::prelude::*;

verus! {

/// Whether an alias may have any casing: it names an error, an enum or a
/// tuple.
pub open spec fn casing_exempt(t: Ty) -> bool {
    t is Error || t is Enum || t is Tuple
}

/// The errors of one alias: an upper-case name is for a heap type, a
/// lower-case one for an inline type.
pub open spec fn alias_errors(sc: Sc, a: TypeAliasDecl, d: Seq<Diag>) -> Seq<Diag> {
    if a.allow_pascal_case {
        d
    } else {
        let (t, d1) = lowered(sc, a.ty, d);
        let heap = kind_of_alloc(t, sc.defs()) is Heap;
        if casing_exempt(t) || pascal_case(a.name.name@) == heap {
            d1
        } else if heap {
            d1.push(
                Diag {
                    hint: Some("rename the alias to PascalCase, or point it at an inline type"@),
                    ..diag(
                        "type alias `"@ + a.name.name@ + "` is lowercase but resolves to heap/reference type `"@
                            + shown(t, sc.defs()) + "`"@,
                        a.span,
                        "lowercase implies an inline/value type"@,
                    )
                },
            )
        } else {
            d1.push(
                Diag {
                    hint: Some("rename the alias to lowercase, or point it at a heap type"@),
                    ..diag(
                        "type alias `"@ + a.name.name@ + "` is PascalCase but resolves to inline/value type `"@ + shown(
                            t,
                            sc.defs(),
                        ) + "`"@,
                        a.span,
                        "PascalCase implies a heap/reference type"@,
                    )
                },
            )
        }
    }
}

/// The errors of the aliases from the `i`-th item on.
pub open spec fn casing_errors(sc: Sc, i: int, d: Seq<Diag>) -> Seq<Diag>
    decreases sc.module.items@.len() - i,
{
    if 0 <= i < sc.module.items@.len() {
        casing_errors(
            sc,
            i + 1,
            match sc.module.items@[i] {
                Item::TypeAlias(a) => alias_errors(sc, a, d),
                _ => d,
            },
        )
    } else {
        d
    }
}

impl<'a> Scope<'a> {
    fn validate_alias(&self, a: &TypeAliasDecl, diags: &mut Vec<Diagnostic>)
        ensures
            final(diags).deep_view() == alias_errors(self@, *a, old(diags).deep_view()),
    {
        if a.allow_pascal_case {
            return;
        }
        let ty = self.lower_type_expr(&a.ty, diags);
        if matches!(ty, Type::Error | Type::Enum(_, _) | Type::Tuple(_)) {
            return;
        }
        let heap = is_heap(&ty, &self.names.definitions);
        let pascal = is_pascal_case(a.name.name.as_str());
        let described = describe_type(&ty, &self.names.definitions);
        if pascal && !heap {
            let message = cat5(
                "type alias `",
                a.name.name.as_str(),
                "` is PascalCase but resolves to inline/value type `",
                described.as_str(),
                "`",
            );
            report_hint(
                diags,
                message.as_str(),
                a.span,
                "PascalCase implies a heap/reference type",
                "rename the alias to lowercase, or point it at a heap type",
            );
        } else if !pascal && heap {
            let message = cat5(
                "type alias `",
                a.name.name.as_str(),
                "` is lowercase but resolves to heap/reference type `",
                described.as_str(),
                "`",
            );
            report_hint(
                diags,
                message.as_str(),
                a.span,
                "lowercase implies an inline/value type",
                "rename the alias to PascalCase, or point it at an inline type",
            );
        }
    }

    /// Reports the aliases whose casing misrepresents what they name.
    pub fn validate_alias_casing(&self, diags: &mut Vec<Diagnostic>)
        ensures
            final(diags).deep_view() == casing_errors(self@, 0, old(diags).deep_view()),
    {
        let mut i: usize = 0;
        while i < self.module.items.len()
            invariant
                i <= self.module.items.len(),
                casing_errors(self@, i as int, diags.deep_view()) == casing_errors(
                    self@,
                    0,
                    old(diags).deep_view(),
                ),
            decreases self.module.items.len() - i,
        {
            if let Item::TypeAlias(a) = &self.module.items[i] {
                self.validate_alias(a, diags);
            }
            i += 1;
        }
    }
}

} // verus!
