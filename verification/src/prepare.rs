//! The eval layout builder: which applications a request selects, and the
//! evaluation instance each of them becomes.
//!
//! Given the agent's name, a requested set of layers and apps, a (source,
//! target) framework pair and the observed benchmark tree, the builder
//! resolves the layers (all of them when none is requested), keeps the
//! apps the request names (all of them when none is named), and plans one
//! instance per surviving app: its id, its three-directory layout under
//! the evaluation output root, and its initial metadata with status
//! `PREPARED`.  Creating the directories and writing the metadata happens
//! outside the library, with create-if-missing semantics, so re-running
//! preparation never destroys what an earlier run left.

use vstd::prelude::*;

use crate::HarnessError;
use crate::keys::{spec_instance_id, EvalInstanceKey, EvalInstanceKeyV};
use crate::metadata::{RunMetadata, RunMetadataV, Status};
use crate::text::{join_path, spec_join_path, str_eq_chars};

verus! {

/// One layer of the benchmark tree as observed on disk: the layer's name
/// and the names of its immediate subdirectories, the candidate apps.
#[derive(Clone, Debug)]
pub struct LayerListing {
    pub name: String,
    pub apps: Vec<String>,
}

/// The mathematical content of a [`LayerListing`].
#[verifier::ext_equal]
pub struct LayerListingV {
    pub name: Seq<char>,
    pub apps: Seq<Seq<char>>,
}

impl View for LayerListing {
    type V = LayerListingV;

    open spec fn view(&self) -> LayerListingV {
        LayerListingV { name: self.name@, apps: self.apps.deep_view() }
    }
}

impl DeepView for LayerListing {
    type V = LayerListingV;

    open spec fn deep_view(&self) -> LayerListingV {
        self.view()
    }
}

/// One surviving application: the layer it lies in and its name.
#[derive(Clone, Debug)]
pub struct AppSel {
    pub layer: String,
    pub app: String,
}

/// The mathematical content of an [`AppSel`].
#[verifier::ext_equal]
pub struct AppSelV {
    pub layer: Seq<char>,
    pub app: Seq<char>,
}

impl View for AppSel {
    type V = AppSelV;

    open spec fn view(&self) -> AppSelV {
        AppSelV { layer: self.layer@, app: self.app@ }
    }
}

impl DeepView for AppSel {
    type V = AppSelV;

    open spec fn deep_view(&self) -> AppSelV {
        self.view()
    }
}

/// The three staging directories of one instance, all children of its
/// root.
#[derive(Clone, Debug)]
pub struct EvalLayout {
    pub root: String,
    pub input: String,
    pub output: String,
    pub validation: String,
}

/// The mathematical content of an [`EvalLayout`].
#[verifier::ext_equal]
pub struct EvalLayoutV {
    pub root: Seq<char>,
    pub input: Seq<char>,
    pub output: Seq<char>,
    pub validation: Seq<char>,
}

impl View for EvalLayout {
    type V = EvalLayoutV;

    open spec fn view(&self) -> EvalLayoutV {
        EvalLayoutV {
            root: self.root@,
            input: self.input@,
            output: self.output@,
            validation: self.validation@,
        }
    }
}

/// One planned evaluation instance: its key, its id, its directory layout
/// and the metadata to persist for it.
#[derive(Clone, Debug)]
pub struct EvalInstance {
    pub key: EvalInstanceKey,
    pub id: String,
    pub layout: EvalLayout,
    pub metadata: RunMetadata,
}

/// The mathematical content of an [`EvalInstance`].
#[verifier::ext_equal]
pub struct EvalInstanceV {
    pub key: EvalInstanceKeyV,
    pub id: Seq<char>,
    pub layout: EvalLayoutV,
    pub metadata: RunMetadataV,
}

impl View for EvalInstance {
    type V = EvalInstanceV;

    open spec fn view(&self) -> EvalInstanceV {
        EvalInstanceV {
            key: self.key@,
            id: self.id@,
            layout: self.layout@,
            metadata: self.metadata@,
        }
    }
}

impl DeepView for EvalInstance {
    type V = EvalInstanceV;

    open spec fn deep_view(&self) -> EvalInstanceV {
        self.view()
    }
}

/// The layer names of the observed tree, in listing order.
pub open spec fn layer_names(tree: Seq<LayerListingV>) -> Seq<Seq<char>> {
    tree.map(|i: int, l: LayerListingV| l.name)
}

/// The apps of the first layer with the given name; a name the tree does
/// not list has no apps.
pub open spec fn apps_of_layer(tree: Seq<LayerListingV>, name: Seq<char>) -> Seq<Seq<char>>
    decreases tree.len(),
{
    if tree.len() == 0 {
        Seq::<Seq<char>>::empty()
    } else if tree[0].name == name {
        tree[0].apps
    } else {
        apps_of_layer(tree.skip(1), name)
    }
}

/// Whether `n` is one of `names`.
pub open spec fn contains_name(names: Seq<Seq<char>>, n: Seq<char>) -> bool {
    exists|i: int| 0 <= i < names.len() && names[i] == n
}

/// Whether an app survives the request's filter: an empty filter keeps
/// every app, a non-empty one keeps exactly the named apps.
pub open spec fn keep_app(app: Seq<char>, filter: Seq<Seq<char>>) -> bool {
    filter.len() == 0 || contains_name(filter, app)
}

/// The surviving apps of one layer, in listing order.
pub open spec fn selected_in_layer(
    apps: Seq<Seq<char>>,
    layer: Seq<char>,
    filter: Seq<Seq<char>>,
) -> Seq<AppSelV>
    decreases apps.len(),
{
    if apps.len() == 0 {
        Seq::<AppSelV>::empty()
    } else {
        let rest = selected_in_layer(apps.skip(1), layer, filter);
        if keep_app(apps[0], filter) {
            seq![AppSelV { layer: layer, app: apps[0] }] + rest
        } else {
            rest
        }
    }
}

proof fn lemma_selected_in_layer_snoc(
    apps: Seq<Seq<char>>,
    a: Seq<char>,
    layer: Seq<char>,
    filter: Seq<Seq<char>>,
)
    ensures
        selected_in_layer(apps.push(a), layer, filter) =~= if keep_app(a, filter) {
            selected_in_layer(apps, layer, filter).push(AppSelV { layer: layer, app: a })
        } else {
            selected_in_layer(apps, layer, filter)
        },
    decreases apps.len(),
{
    let sel = AppSelV { layer: layer, app: a };
    if apps.len() == 0 {
        assert(apps.push(a)[0] == a);
        assert(apps.push(a).skip(1) =~= apps);
        if keep_app(a, filter) {
            assert(seq![sel] + selected_in_layer(apps, layer, filter) =~= selected_in_layer(
                apps,
                layer,
                filter,
            ).push(sel));
        }
    } else {
        assert(apps.push(a)[0] == apps[0]);
        assert(apps.push(a).skip(1) =~= apps.skip(1).push(a));
        lemma_selected_in_layer_snoc(apps.skip(1), a, layer, filter);
        if keep_app(apps[0], filter) && keep_app(a, filter) {
            let head = AppSelV { layer: layer, app: apps[0] };
            assert(seq![head] + selected_in_layer(apps.skip(1), layer, filter).push(sel)
                =~= (seq![head] + selected_in_layer(apps.skip(1), layer, filter)).push(sel));
        }
    }
}

/// The surviving apps across the resolved layers, layer by layer.
pub open spec fn selected_apps(
    tree: Seq<LayerListingV>,
    layers: Seq<Seq<char>>,
    filter: Seq<Seq<char>>,
) -> Seq<AppSelV>
    decreases layers.len(),
{
    if layers.len() == 0 {
        Seq::<AppSelV>::empty()
    } else {
        selected_in_layer(apps_of_layer(tree, layers[0]), layers[0], filter) + selected_apps(
            tree,
            layers.skip(1),
            filter,
        )
    }
}

proof fn lemma_selected_apps_snoc(
    tree: Seq<LayerListingV>,
    layers: Seq<Seq<char>>,
    l: Seq<char>,
    filter: Seq<Seq<char>>,
)
    ensures
        selected_apps(tree, layers.push(l), filter) =~= selected_apps(tree, layers, filter)
            + selected_in_layer(apps_of_layer(tree, l), l, filter),
    decreases layers.len(),
{
    if layers.len() == 0 {
        assert(layers.push(l)[0] == l);
        assert(layers.push(l).skip(1) =~= layers);
    } else {
        assert(layers.push(l)[0] == layers[0]);
        assert(layers.push(l).skip(1) =~= layers.skip(1).push(l));
        lemma_selected_apps_snoc(tree, layers.skip(1), l, filter);
        assert(selected_in_layer(apps_of_layer(tree, layers[0]), layers[0], filter)
            + (selected_apps(tree, layers.skip(1), filter) + selected_in_layer(
            apps_of_layer(tree, l),
            l,
            filter,
        )) =~= (selected_in_layer(apps_of_layer(tree, layers[0]), layers[0], filter)
            + selected_apps(tree, layers.skip(1), filter)) + selected_in_layer(
            apps_of_layer(tree, l),
            l,
            filter,
        ));
    }
}

/// The layers a request resolves to: the requested ones, or every layer
/// of the tree when none is requested.
pub open spec fn resolved_layers(
    tree: Seq<LayerListingV>,
    requested: Seq<Seq<char>>,
) -> Seq<Seq<char>> {
    if requested.len() > 0 {
        requested
    } else {
        layer_names(tree)
    }
}

/// Everything a request selects from the observed tree.
pub open spec fn spec_selection(
    tree: Seq<LayerListingV>,
    requested_layers: Seq<Seq<char>>,
    requested_apps: Seq<Seq<char>>,
) -> Seq<AppSelV> {
    selected_apps(tree, resolved_layers(tree, requested_layers), requested_apps)
}

/// The instance one surviving app becomes: its key, the id the key
/// serializes to, the three staging directories under
/// `eval_out/<instance id>/`, and metadata with status `PREPARED`.
pub open spec fn spec_instance(
    agent: Seq<char>,
    eval_out: Seq<char>,
    sel: AppSelV,
    source: Seq<char>,
    target: Seq<char>,
) -> EvalInstanceV {
    let key = EvalInstanceKeyV {
        agent: agent,
        layer: sel.layer,
        app: sel.app,
        source_framework: source,
        target_framework: target,
    };
    let id = spec_instance_id(key);
    let root = spec_join_path(eval_out, id);
    EvalInstanceV {
        key: key,
        id: id,
        layout: EvalLayoutV {
            root: root,
            input: spec_join_path(root, "input"@),
            output: spec_join_path(root, "output"@),
            validation: spec_join_path(root, "validation"@),
        },
        metadata: RunMetadataV {
            eval_id: id,
            agent: agent,
            layer: sel.layer,
            app: sel.app,
            source_framework: source,
            target_framework: target,
            status: Status::Prepared,
        },
    }
}

/// The plan for a whole selection, one instance per surviving app.
pub open spec fn spec_plan(
    agent: Seq<char>,
    eval_out: Seq<char>,
    source: Seq<char>,
    target: Seq<char>,
    sel: Seq<AppSelV>,
) -> Seq<EvalInstanceV> {
    sel.map(|i: int, s: AppSelV| spec_instance(agent, eval_out, s, source, target))
}

/// Decides [`contains_name`] on a list of strings.
fn contains_str(names: &Vec<String>, n: &str) -> (r: bool)
    ensures
        r == contains_name(names.deep_view(), n@),
{
    let mut i: usize = 0;
    while i < names.len()
        invariant
            0 <= i <= names.len(),
            names.deep_view().len() == names.len(),
            forall|j: int| 0 <= j < i ==> names.deep_view()[j] != n@,
        decreases names.len() - i,
    {
        if str_eq_chars(names[i].as_str(), n) {
            proof {
                assert(names.deep_view()[i as int] == n@);
            }
            return true;
        }
        i += 1;
    }
    false
}

/// The index of the first layer with the given name, if the tree lists
/// one; its apps are then [`apps_of_layer`] of the name.
fn find_layer(tree: &Vec<LayerListing>, name: &str) -> (r: Option<usize>)
    ensures
        match r {
            Some(i) => i < tree.len() && tree.deep_view()[i as int].apps =~= apps_of_layer(
                tree.deep_view(),
                name@,
            ),
            None => apps_of_layer(tree.deep_view(), name@).len() == 0,
        },
{
    let mut i: usize = 0;
    proof {
        assert(tree.deep_view().skip(0) =~= tree.deep_view());
    }
    while i < tree.len()
        invariant
            0 <= i <= tree.len(),
            tree.deep_view().len() == tree.len(),
            apps_of_layer(tree.deep_view(), name@) == apps_of_layer(
                tree.deep_view().skip(i as int),
                name@,
            ),
        decreases tree.len() - i,
    {
        proof {
            assert(tree.deep_view().skip(i as int)[0] == tree.deep_view()[i as int]);
            assert(tree.deep_view().skip(i as int).skip(1) =~= tree.deep_view().skip(i + 1));
        }
        if str_eq_chars(tree[i].name.as_str(), name) {
            return Some(i);
        }
        i += 1;
    }
    proof {
        assert(tree.deep_view().skip(tree.len() as int) =~= Seq::<LayerListingV>::empty());
    }
    None
}

/// Appends the surviving apps of one layer to the selection.
fn select_layer(tree: &Vec<LayerListing>, layer: &str, filter: &Vec<String>, out: &mut Vec<AppSel>)
    ensures
        final(out).deep_view() =~= old(out).deep_view() + selected_in_layer(
            apps_of_layer(tree.deep_view(), layer@),
            layer@,
            filter.deep_view(),
        ),
{
    let ghost apps = apps_of_layer(tree.deep_view(), layer@);
    match find_layer(tree, layer) {
        None => {
            proof {
                assert(apps =~= Seq::<Seq<char>>::empty());
                assert(selected_in_layer(apps, layer@, filter.deep_view()) =~= Seq::<
                    AppSelV,
                >::empty());
                assert(old(out).deep_view() + Seq::<AppSelV>::empty() =~= old(out).deep_view());
            }
        },
        Some(li) => {
            let mut j: usize = 0;
            proof {
                assert(apps.take(0) =~= Seq::<Seq<char>>::empty());
                assert(selected_in_layer(apps.take(0), layer@, filter.deep_view()) =~= Seq::<
                    AppSelV,
                >::empty());
                assert(old(out).deep_view() + Seq::<AppSelV>::empty() =~= old(out).deep_view());
            }
            while j < tree[li].apps.len()
                invariant
                    li < tree.len(),
                    tree.deep_view().len() == tree.len(),
                    tree.deep_view()[li as int].apps =~= apps,
                    tree@[li as int].apps.deep_view() =~= apps,
                    0 <= j <= apps.len(),
                    tree@[li as int].apps@.len() == apps.len(),
                    out.deep_view() =~= old(out).deep_view() + selected_in_layer(
                        apps.take(j as int),
                        layer@,
                        filter.deep_view(),
                    ),
                decreases apps.len() - j,
            {
                proof {
                    assert(apps.take(j + 1) =~= apps.take(j as int).push(apps[j as int]));
                    lemma_selected_in_layer_snoc(
                        apps.take(j as int),
                        apps[j as int],
                        layer@,
                        filter.deep_view(),
                    );
                    assert(tree@[li as int].apps.deep_view()[j as int] == tree@[li as int].apps@[
                        j as int]@);
                }
                let app = &tree[li].apps[j];
                if filter.len() == 0 || contains_str(filter, app.as_str()) {
                    let picked = AppSel { layer: layer.to_owned(), app: app.clone() };
                    let ghost dv = out.deep_view();
                    out.push(picked);
                    proof {
                        assert(picked@ =~= (AppSelV { layer: layer@, app: apps[j as int] }));
                        assert(out.deep_view() =~= dv.push(picked@));
                    }
                }
                j += 1;
            }
            proof {
                assert(apps.take(apps.len() as int) =~= apps);
            }
        },
    }
}

/// Enumerates the applicable applications and plans one evaluation
/// instance for each: the instance id derived from the key, the layout
/// under `eval_out`, and metadata with status `PREPARED`.  Fails with
/// [`HarnessError::Configuration`] exactly when apps were requested by
/// name but none of them exists under the resolved layers; no instance is
/// planned then.
pub fn initialize_evals(
    agent_name: &str,
    requested_layers: &Vec<String>,
    requested_apps: &Vec<String>,
    source_fw: &str,
    target_fw: &str,
    eval_out: &str,
    tree: &Vec<LayerListing>,
) -> (r: Result<Vec<EvalInstance>, HarnessError>)
    ensures
        ({
            let sel = spec_selection(
                tree.deep_view(),
                requested_layers.deep_view(),
                requested_apps.deep_view(),
            );
            match r {
                Ok(instances) => instances.deep_view() =~= spec_plan(
                    agent_name@,
                    eval_out@,
                    source_fw@,
                    target_fw@,
                    sel,
                ) && !(requested_apps.deep_view().len() > 0 && sel.len() == 0),
                Err(e) => requested_apps.deep_view().len() > 0 && sel.len() == 0 && e
                    == HarnessError::Configuration,
            }
        }),
{
    let ghost treev = tree.deep_view();
    let ghost filterv = requested_apps.deep_view();
    // Resolve the layer set: the requested layers, or all of them.
    let mut layers: Vec<String> = Vec::new();
    if requested_layers.len() > 0 {
        let mut i: usize = 0;
        while i < requested_layers.len()
            invariant
                0 <= i <= requested_layers.len(),
                requested_layers.deep_view().len() == requested_layers.len(),
                layers.deep_view() =~= requested_layers.deep_view().take(i as int),
            decreases requested_layers.len() - i,
        {
            let ghost dv = layers.deep_view();
            layers.push(requested_layers[i].clone());
            proof {
                assert(layers.deep_view() =~= dv.push(requested_layers.deep_view()[i as int]));
                assert(requested_layers.deep_view().take(i + 1)
                    =~= requested_layers.deep_view().take(i as int).push(
                    requested_layers.deep_view()[i as int],
                ));
            }
            i += 1;
        }
        proof {
            assert(requested_layers.deep_view().take(requested_layers.len() as int)
                =~= requested_layers.deep_view());
            assert(layers.deep_view() =~= resolved_layers(treev, requested_layers.deep_view()));
        }
    } else {
        let mut i: usize = 0;
        while i < tree.len()
            invariant
                0 <= i <= tree.len(),
                treev == tree.deep_view(),
                treev.len() == tree.len(),
                layers.deep_view() =~= layer_names(treev).take(i as int),
            decreases tree.len() - i,
        {
            let ghost dv = layers.deep_view();
            layers.push(tree[i].name.clone());
            proof {
                assert(layers.deep_view() =~= dv.push(treev[i as int].name));
                assert(layer_names(treev).take(i + 1) =~= layer_names(treev).take(i as int).push(
                    treev[i as int].name,
                ));
            }
            i += 1;
        }
        proof {
            assert(layer_names(treev).take(treev.len() as int) =~= layer_names(treev));
            assert(layers.deep_view() =~= resolved_layers(treev, requested_layers.deep_view()));
        }
    }
    let ghost layersv = layers.deep_view();
    // Collect the surviving apps, layer by layer.
    let mut selection: Vec<AppSel> = Vec::new();
    let mut i: usize = 0;
    proof {
        assert(layersv.take(0) =~= Seq::<Seq<char>>::empty());
        assert(selection.deep_view() =~= selected_apps(treev, layersv.take(0), filterv));
    }
    while i < layers.len()
        invariant
            0 <= i <= layers.len(),
            treev == tree.deep_view(),
            filterv == requested_apps.deep_view(),
            layersv == layers.deep_view(),
            layersv.len() == layers.len(),
            selection.deep_view() =~= selected_apps(treev, layersv.take(i as int), filterv),
        decreases layers.len() - i,
    {
        proof {
            assert(layersv.take(i + 1) =~= layersv.take(i as int).push(layersv[i as int]));
            lemma_selected_apps_snoc(treev, layersv.take(i as int), layersv[i as int], filterv);
        }
        select_layer(tree, layers[i].as_str(), requested_apps, &mut selection);
        i += 1;
    }
    proof {
        assert(layersv.take(layers.len() as int) =~= layersv);
        assert(selection.deep_view() =~= spec_selection(
            treev,
            requested_layers.deep_view(),
            filterv,
        ));
    }
    // The request named apps, but none of them exists under the layers.
    if requested_apps.len() > 0 && selection.len() == 0 {
        return Err(HarnessError::Configuration);
    }
    // Plan one instance per surviving app.
    let ghost selv = selection.deep_view();
    let mut instances: Vec<EvalInstance> = Vec::new();
    let mut k: usize = 0;
    proof {
        assert(instances.deep_view() =~= spec_plan(
            agent_name@,
            eval_out@,
            source_fw@,
            target_fw@,
            selv.take(0),
        ));
    }
    while k < selection.len()
        invariant
            0 <= k <= selection.len(),
            selv == selection.deep_view(),
            selv.len() == selection.len(),
            instances.deep_view() =~= spec_plan(
                agent_name@,
                eval_out@,
                source_fw@,
                target_fw@,
                selv.take(k as int),
            ),
        decreases selection.len() - k,
    {
        let key = EvalInstanceKey {
            agent: agent_name.to_owned(),
            layer: selection[k].layer.clone(),
            app: selection[k].app.clone(),
            source_framework: source_fw.to_owned(),
            target_framework: target_fw.to_owned(),
        };
        let id = key.instance_id();
        let root = join_path(eval_out, id.as_str());
        let layout = EvalLayout {
            root: root.clone(),
            input: join_path(root.as_str(), "input"),
            output: join_path(root.as_str(), "output"),
            validation: join_path(root.as_str(), "validation"),
        };
        let metadata = RunMetadata {
            eval_id: id.clone(),
            agent: agent_name.to_owned(),
            layer: selection[k].layer.clone(),
            app: selection[k].app.clone(),
            source_framework: source_fw.to_owned(),
            target_framework: target_fw.to_owned(),
            status: Status::Prepared,
        };
        let inst = EvalInstance { key, id, layout, metadata };
        let ghost dv = instances.deep_view();
        proof {
            assert(inst@ =~~= spec_instance(
                agent_name@,
                eval_out@,
                selv[k as int],
                source_fw@,
                target_fw@,
            ));
        }
        instances.push(inst);
        proof {
            assert(instances.deep_view() =~= dv.push(inst@));
            assert(selv.take(k + 1) =~= selv.take(k as int).push(selv[k as int]));
            assert(spec_plan(agent_name@, eval_out@, source_fw@, target_fw@, selv.take(k + 1))
                =~= spec_plan(
                agent_name@,
                eval_out@,
                source_fw@,
                target_fw@,
                selv.take(k as int),
            ).push(spec_instance(agent_name@, eval_out@, selv[k as int], source_fw@, target_fw@)));
        }
        k += 1;
    }
    proof {
        assert(selv.take(selection.len() as int) =~= selv);
    }
    Ok(instances)
}

/// Preparation is idempotent at the planning level.  The plan is a pure
/// function of the observed tree and the request — the ensures of
/// [`initialize_evals`] pins every run of it to [`spec_plan`], so two
/// runs over the same observations plan identical instances — and every
/// planned instance records status `PREPARED`, so a second preparation
/// re-writes `PREPARED` and never a terminal status.  Each instance's
/// metadata carries exactly the identity of its key, and its directories
/// sit under its own root.
pub proof fn lemma_prepare_idempotent(
    agent: Seq<char>,
    eval_out: Seq<char>,
    source: Seq<char>,
    target: Seq<char>,
    sel: Seq<AppSelV>,
)
    ensures
        forall|i: int|
            0 <= i < spec_plan(agent, eval_out, source, target, sel).len() ==> {
                let inst = #[trigger] spec_plan(agent, eval_out, source, target, sel)[i];
                &&& inst.metadata.status == Status::Prepared
                &&& inst.metadata.eval_id == inst.id
                &&& inst.metadata.agent == inst.key.agent
                &&& inst.metadata.layer == inst.key.layer
                &&& inst.metadata.app == inst.key.app
                &&& inst.metadata.source_framework == inst.key.source_framework
                &&& inst.metadata.target_framework == inst.key.target_framework
                &&& inst.id == spec_instance_id(inst.key)
                &&& inst.layout.root == spec_join_path(eval_out, inst.id)
                &&& inst.layout.input == spec_join_path(inst.layout.root, "input"@)
                &&& inst.layout.output == spec_join_path(inst.layout.root, "output"@)
                &&& inst.layout.validation == spec_join_path(inst.layout.root, "validation"@)
            },
{
}

} // verus!
