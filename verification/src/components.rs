//! Temperatures that the operating system reports for the components of a machine.

use vstd::arithmetic::power2::pow2;
use vstd::prelude::*;
use crate::sequences::{
    law_kept_in_order, lemma_filter_ends, lemma_filter_prefix, lemma_filter_step, lemma_none_kept,
    nth_kept,
};
use crate::single::Single;
use crate::text::{contains, holds_any, lowercase, occurs_in};

verus! {

/// A component: its label and its temperature in degrees Celsius.
#[derive(Debug, Clone)]
pub struct ComponentReading {
    pub label: String,
    pub temperature: Single,
}

/// Whether a label, in lower case, is that of a GPU.
pub open spec fn gpu_label(label: Seq<char>) -> bool {
    ||| occurs_in("gpu"@, label)
    ||| occurs_in("amd"@, label)
    ||| occurs_in("radeon"@, label)
    ||| occurs_in("vga"@, label)
    ||| occurs_in("tgpu"@, label)
    ||| occurs_in("display"@, label)
    ||| occurs_in("gfx"@, label)
}

/// Whether a label, in lower case, is that of a CPU package.
pub open spec fn cpu_label(label: Seq<char>) -> bool {
    ||| occurs_in("package"@, label)
    ||| occurs_in("tctl"@, label)
    ||| occurs_in("tccd"@, label)
}

/// The components that are GPUs by their label and whose temperature is plausible.
pub open spec fn gpu_component() -> spec_fn(ComponentReading) -> bool {
    |c: ComponentReading| gpu_label(lowercase(c.label@)) && c.temperature.inside(120)
}

/// The components that are CPU packages by their label.
pub open spec fn cpu_component() -> spec_fn(ComponentReading) -> bool {
    |c: ComponentReading| cpu_label(lowercase(c.label@))
}

/// Whether a label, in lower case, is that of a GPU.
pub fn labels_gpu(label: &str) -> (b: bool)
    ensures
        b == gpu_label(label@),
{
    contains(label, "gpu") || contains(label, "amd") || contains(label, "radeon") || contains(
        label,
        "vga",
    ) || contains(label, "tgpu") || contains(label, "display") || contains(label, "gfx")
}

/// Whether a label, in lower case, is that of a CPU package.
pub fn labels_cpu(label: &str) -> (b: bool)
    ensures
        b == cpu_label(label@),
{
    contains(label, "package") || contains(label, "tctl") || contains(label, "tccd")
}

/// The temperature of the first of the components that satisfy `keep`.
pub open spec fn first_temperature(
    components: Seq<ComponentReading>,
    keep: spec_fn(ComponentReading) -> bool,
) -> Option<Single> {
    match nth_kept(components, keep, 0) {
        Some(c) => Some(c.temperature),
        None => None,
    }
}

/// The temperature of the first component that is a GPU by its label and whose
/// temperature lies between 0 and 120 degrees.
pub fn query_amd_temp_from_components(components: &[ComponentReading]) -> (value: Option<Single>)
    ensures
        value == first_temperature(components@, gpu_component()),
{
    let mut i: usize = 0;
    proof {
        lemma_filter_ends(components@, gpu_component());
    }
    while i < components.len()
        invariant
            i <= components.len(),
            components@.take(i as int).filter(gpu_component()).len() == 0,
        decreases components.len() - i,
    {
        proof {
            lemma_filter_step(components@, gpu_component(), i as int);
            lemma_filter_prefix(components@, gpu_component(), i + 1);
        }
        let label = components[i].label.to_lowercase();
        if labels_gpu(&label) && components[i].temperature.is_inside(120) {
            return Some(components[i].temperature);
        }
        i += 1;
    }
    proof {
        lemma_filter_ends(components@, gpu_component());
    }
    None
}

/// The temperature of the first component that is a CPU package by its label.
pub fn query_cpu_temp_from_components(components: &[ComponentReading]) -> (value: Option<Single>)
    ensures
        value == first_temperature(components@, cpu_component()),
{
    let mut i: usize = 0;
    proof {
        lemma_filter_ends(components@, cpu_component());
    }
    while i < components.len()
        invariant
            i <= components.len(),
            components@.take(i as int).filter(cpu_component()).len() == 0,
        decreases components.len() - i,
    {
        proof {
            lemma_filter_step(components@, cpu_component(), i as int);
            lemma_filter_prefix(components@, cpu_component(), i + 1);
        }
        let label = components[i].label.to_lowercase();
        if labels_cpu(&label) {
            return Some(components[i].temperature);
        }
        i += 1;
    }
    proof {
        lemma_filter_ends(components@, cpu_component());
    }
    None
}

/// A label is that of a GPU exactly where it holds one of seven words.
pub proof fn law_gpu_label(label: Seq<char>)
    ensures
        gpu_label(label) <==> holds_any(
            seq!["gpu", "amd", "radeon", "vga", "tgpu", "display", "gfx"],
            label,
        ),
{
    let w = seq!["gpu", "amd", "radeon", "vga", "tgpu", "display", "gfx"];
    assert(w[0]@ == "gpu"@ && w[1]@ == "amd"@ && w[2]@ == "radeon"@ && w[3]@ == "vga"@ && w[4]@
        == "tgpu"@ && w[5]@ == "display"@ && w[6]@ == "gfx"@);
}

/// A label is that of a CPU package exactly where it holds one of three words.
pub proof fn law_cpu_label(label: Seq<char>)
    ensures
        cpu_label(label) <==> holds_any(seq!["package", "tctl", "tccd"], label),
{
    let w = seq!["package", "tctl", "tccd"];
    assert(w[0]@ == "package"@ && w[1]@ == "tctl"@ && w[2]@ == "tccd"@);
}

/// A component counts for the GPU where its label, in lower case, is that of a GPU and its
/// temperature lies strictly between 0 and 120; and for the CPU by its label alone.
pub proof fn law_components_that_count(c: ComponentReading)
    ensures
        gpu_component()(c) <==> gpu_label(lowercase(c.label@)) && !c.temperature.nan() && 0
            < c.temperature.scaled() < 120 * pow2(149),
        cpu_component()(c) <==> cpu_label(lowercase(c.label@)),
{
}

/// Of the components that count the first gives its temperature, and where none counts
/// there is none.
pub proof fn law_first_component(
    components: Seq<ComponentReading>,
    keep: spec_fn(ComponentReading) -> bool,
    k: int,
)
    ensures
        0 <= k < components.len() && keep(components[k]) && (forall|i: int|
            0 <= i < k ==> !keep(#[trigger] components[i])) ==> first_temperature(components, keep)
            == Some(components[k].temperature),
        (forall|i: int| 0 <= i < components.len() ==> !keep(#[trigger] components[i]))
            ==> first_temperature(components, keep) is None,
{
    if 0 <= k < components.len() && keep(components[k]) && (forall|i: int|
        0 <= i < k ==> !keep(#[trigger] components[i])) {
        law_kept_in_order(components, keep, k);
        lemma_none_kept(components.take(k), keep);
    }
    if forall|i: int| 0 <= i < components.len() ==> !keep(#[trigger] components[i]) {
        lemma_none_kept(components, keep);
    }
}

} // verus!
