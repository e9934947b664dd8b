use crate::github::runner_registration::{AuthorizationContext, AuthorizationContextView};
use crate::profile::ResourceProfile;
use crate::text::{append_decimal, decimal, join, joined, text_of, texts};
use vstd::prelude::*;
use vstd::string::*;

verus! {

/// The smallest ephemeral disk, in GiB, that the backend really gives. Its
/// documentation says 20; a task gets 21.
pub const MINIMUM_DISK: i32 = 21;

/// Where tasks are launched: the cluster and the subnet, as far as the
/// deployment is configured with them.
#[derive(Clone, Debug, PartialEq, Eq)]
pub struct Placement {
    pub cluster: Option<String>,
    pub subnet: Option<String>,
}

/// A name with its value: a tag of a task, or a variable of its environment.
#[derive(Clone, PartialEq, Eq)]
pub struct Pair {
    pub name: String,
    pub value: String,
}

/// All that the backend is asked for when one runner is launched.
#[derive(Clone, PartialEq, Eq)]
pub struct LaunchRequest {
    pub cluster: String,
    pub task_definition: String,
    pub subnet: String,
    pub tags: Vec<Pair>,
    /// Cpu of the task, in milli-units, as the backend takes it.
    pub cpu: String,
    /// Memory of the task, in MiB, as the backend takes it.
    pub memory: String,
    /// Ephemeral disk of the task in GiB, where the default is not kept.
    pub ephemeral_storage: Option<i32>,
    pub container: String,
    pub container_cpu: i32,
    pub container_memory: i32,
    pub environment: Vec<Pair>,
}

/// Why no launch is attempted.
#[derive(Clone, Copy, Debug, PartialEq, Eq, Structural)]
pub enum LaunchError {
    /// The job came without labels.
    NoLabels,
    /// The deployment names no cluster.
    MissingCluster,
    /// The deployment names no subnet.
    MissingSubnet,
}

/// What the backend said to a launch.
#[derive(Clone, Copy, Debug, PartialEq, Eq, Structural)]
pub enum LaunchOutcome {
    /// The call went through; `failures` counts the failure entries that came
    /// back with it.
    Submitted { failures: usize },
    /// The call failed.
    Rejected,
}

/// The model of a `Placement`.
pub struct PlacementView {
    pub cluster: Option<Seq<char>>,
    pub subnet: Option<Seq<char>>,
}

/// The model of a `LaunchRequest`.
pub struct LaunchRequestView {
    pub cluster: Seq<char>,
    pub task_definition: Seq<char>,
    pub subnet: Seq<char>,
    pub tags: Seq<(Seq<char>, Seq<char>)>,
    pub cpu: Seq<char>,
    pub memory: Seq<char>,
    pub ephemeral_storage: Option<i32>,
    pub container: Seq<char>,
    pub container_cpu: i32,
    pub container_memory: i32,
    pub environment: Seq<(Seq<char>, Seq<char>)>,
}

impl View for Placement {
    type V = PlacementView;

    open spec fn view(&self) -> Self::V {
        PlacementView { cluster: text_of(self.cluster), subnet: text_of(self.subnet) }
    }
}

impl View for Pair {
    type V = (Seq<char>, Seq<char>);

    open spec fn view(&self) -> Self::V {
        (self.name@, self.value@)
    }
}

/// The names and values that `v` holds.
pub open spec fn pairs_of(v: Seq<Pair>) -> Seq<(Seq<char>, Seq<char>)> {
    Seq::new(v.len(), |i: int| v[i]@)
}

impl View for LaunchRequest {
    type V = LaunchRequestView;

    open spec fn view(&self) -> Self::V {
        LaunchRequestView {
            cluster: self.cluster@,
            task_definition: self.task_definition@,
            subnet: self.subnet@,
            tags: pairs_of(self.tags@),
            cpu: self.cpu@,
            memory: self.memory@,
            ephemeral_storage: self.ephemeral_storage,
            container: self.container@,
            container_cpu: self.container_cpu,
            container_memory: self.container_memory,
            environment: pairs_of(self.environment@),
        }
    }
}

/// The sizing as operators read it: `<cpu>cpu-<memory>mem-<disk>disk-<timeout>m`,
/// cpu in milli-units and memory in MiB.
pub open spec fn size_signature(profile: ResourceProfile) -> Seq<char> {
    decimal(profile.cpu as int) + "cpu-"@ + decimal(profile.memory as int) + "mem-"@ + decimal(
        profile.disk as int,
    ) + "disk-"@ + decimal(profile.timeout as int) + "m"@
}

/// The disk to ask for: the profile's, where it exceeds what the backend
/// gives anyway; otherwise none, and the backend's default stays.
pub open spec fn disk_override(profile: ResourceProfile) -> Option<i32> {
    if profile.disk > MINIMUM_DISK {
        Some(profile.disk)
    } else {
        None
    }
}

/// The tags of a task: where the job comes from and how the task is sized.
/// No tag is made from the token.
pub open spec fn tags_for(profile: ResourceProfile, repository: Seq<char>, job_url: Seq<char>) -> Seq<
    (Seq<char>, Seq<char>),
> {
    seq![("Repository"@, repository), ("Size"@, size_signature(profile)), ("Job"@, job_url)]
}

/// What tells a runner whom it serves: the organization, and, with a token
/// for one repository, that repository.
pub open spec fn scope_for(context: AuthorizationContextView) -> Seq<(Seq<char>, Seq<char>)> {
    match context.repository {
        Some(repository) => seq![
            ("RUNNER_SCOPE"@, "repo"@),
            ("ORG_NAME"@, context.organization),
            ("REPO_URL"@, "https://github.com/"@ + context.organization + "/"@ + repository),
        ],
        None => seq![("RUNNER_SCOPE"@, "org"@), ("ORG_NAME"@, context.organization)],
    }
}

/// The environment of a runner.
pub open spec fn environment_for(
    token: Seq<char>,
    context: AuthorizationContextView,
    labels: Seq<Seq<char>>,
    profile: ResourceProfile,
) -> Seq<(Seq<char>, Seq<char>)> {
    seq![
        ("RUNNER_NAME_PREFIX"@, "aws-ecs-fargate-"@ + size_signature(profile)),
        ("RUNNER_TOKEN"@, token),
    ] + scope_for(context) + seq![
        ("LABELS"@, joined(labels, ","@)),
        ("EPHEMERAL"@, "true"@),
        ("START_DOCKER_SERVICE"@, "true"@),
        ("TIMEOUT"@, decimal(profile.timeout as int) + "m"@),
    ]
}

/// The launch of one runner, or why none is attempted. A job without labels
/// is refused first, then a deployment without cluster, then one without
/// subnet. Cpu and memory are asked for the task and, with the same values,
/// for its one container.
pub open spec fn launch_plan(
    placement: PlacementView,
    token: Seq<char>,
    context: AuthorizationContextView,
    labels: Seq<Seq<char>>,
    profile: ResourceProfile,
    repository: Seq<char>,
    job_url: Seq<char>,
) -> Result<LaunchRequestView, LaunchError> {
    if labels.len() == 0 {
        Err(LaunchError::NoLabels)
    } else if placement.cluster is None {
        Err(LaunchError::MissingCluster)
    } else if placement.subnet is None {
        Err(LaunchError::MissingSubnet)
    } else {
        Ok(
            LaunchRequestView {
                cluster: placement.cluster.unwrap(),
                task_definition: "github-actions-runner"@,
                subnet: placement.subnet.unwrap(),
                tags: tags_for(profile, repository, job_url),
                cpu: decimal(profile.cpu as int),
                memory: decimal(profile.memory as int),
                ephemeral_storage: disk_override(profile),
                container: "github-actions-runner"@,
                container_cpu: profile.cpu,
                container_memory: profile.memory,
                environment: environment_for(token, context, labels, profile),
            },
        )
    }
}

/// A name with its value.
fn pair(name: &str, value: String) -> (r: Pair)
    ensures
        r@ == (name@, value@),
{
    Pair { name: name.to_owned(), value }
}

/// A number in decimal.
fn decimal_text(n: i32) -> (r: String)
    ensures
        r@ == decimal(n as int),
{
    let mut out = String::new();
    append_decimal(&mut out, n);
    assert(out@ =~= decimal(n as int));
    out
}

/// Writes the sizing behind `lead`.
fn sized_name(lead: &str, profile: &ResourceProfile) -> (r: String)
    ensures
        r@ == lead@ + size_signature(*profile),
{
    let mut out = lead.to_owned();
    append_decimal(&mut out, profile.cpu);
    out.append("cpu-");
    append_decimal(&mut out, profile.memory);
    out.append("mem-");
    append_decimal(&mut out, profile.disk);
    out.append("disk-");
    append_decimal(&mut out, profile.timeout);
    out.append("m");
    assert(out@ =~= lead@ + size_signature(*profile));
    out
}

/// Says whom the runner serves.
fn push_scope(environment: &mut Vec<Pair>, context: &AuthorizationContext)
    ensures
        pairs_of(final(environment)@) == pairs_of(old(environment)@) + scope_for(context@),
{
    let ghost before = pairs_of(environment@);
    match &context.repository {
        Some(repository) => {
            let mut url = "https://github.com/".to_owned();
            url.append(context.organization.as_str());
            url.append("/");
            url.append(repository.as_str());
            environment.push(pair("RUNNER_SCOPE", "repo".to_owned()));
            environment.push(pair("ORG_NAME", context.organization.clone()));
            environment.push(pair("REPO_URL", url));
        },
        None => {
            environment.push(pair("RUNNER_SCOPE", "org".to_owned()));
            environment.push(pair("ORG_NAME", context.organization.clone()));
        },
    }
    assert(pairs_of(environment@) =~= before + scope_for(context@));
}

/// Plans the launch of one runner for a job: the request to hand to the
/// backend, with the token, the sizing and the job's data in their places.
/// Nothing is sent here; a request that comes back is submitted as it is.
pub fn spawn_runner(
    placement: &Placement,
    runner_token: &str,
    context: &AuthorizationContext,
    labels: &Vec<String>,
    profile: &ResourceProfile,
    repository: &str,
    job_url: &str,
) -> (r: Result<LaunchRequest, LaunchError>)
    ensures
        match r {
            Ok(request) => launch_plan(
                placement@,
                runner_token@,
                context@,
                texts(labels@),
                *profile,
                repository@,
                job_url@,
            ) == Ok::<LaunchRequestView, LaunchError>(request@),
            Err(e) => launch_plan(
                placement@,
                runner_token@,
                context@,
                texts(labels@),
                *profile,
                repository@,
                job_url@,
            ) == Err::<LaunchRequestView, LaunchError>(e),
        },
        r matches Ok(request) ==> (request.ephemeral_storage is Some <==> profile.disk > 21),
{
    if labels.len() == 0 {
        return Err(LaunchError::NoLabels);
    }
    let cluster = match &placement.cluster {
        Some(cluster) => cluster.clone(),
        None => {
            return Err(LaunchError::MissingCluster);
        },
    };
    let subnet = match &placement.subnet {
        Some(subnet) => subnet.clone(),
        None => {
            return Err(LaunchError::MissingSubnet);
        },
    };
    let mut tags: Vec<Pair> = Vec::new();
    tags.push(pair("Repository", repository.to_owned()));
    tags.push(pair("Size", sized_name("", profile)));
    tags.push(pair("Job", job_url.to_owned()));
    proof {
        reveal_strlit("");
        assert(""@ + size_signature(*profile) =~= size_signature(*profile));
        assert(pairs_of(tags@) =~= tags_for(*profile, repository@, job_url@));
    }
    let mut timeout = decimal_text(profile.timeout);
    timeout.append("m");
    let mut environment: Vec<Pair> = Vec::new();
    environment.push(pair("RUNNER_NAME_PREFIX", sized_name("aws-ecs-fargate-", profile)));
    environment.push(pair("RUNNER_TOKEN", runner_token.to_owned()));
    let ghost head = pairs_of(environment@);
    push_scope(&mut environment, context);
    let ghost middle = pairs_of(environment@);
    environment.push(pair("LABELS", join(labels, ",")));
    environment.push(pair("EPHEMERAL", "true".to_owned()));
    environment.push(pair("START_DOCKER_SERVICE", "true".to_owned()));
    environment.push(pair("TIMEOUT", timeout));
    proof {
        assert(head =~= seq![
            ("RUNNER_NAME_PREFIX"@, "aws-ecs-fargate-"@ + size_signature(*profile)),
            ("RUNNER_TOKEN"@, runner_token@),
        ]);
        assert(pairs_of(environment@) =~= middle + seq![
            ("LABELS"@, joined(texts(labels@), ","@)),
            ("EPHEMERAL"@, "true"@),
            ("START_DOCKER_SERVICE"@, "true"@),
            ("TIMEOUT"@, decimal(profile.timeout as int) + "m"@),
        ]);
    }
    let ephemeral_storage = if profile.disk > MINIMUM_DISK {
        Some(profile.disk)
    } else {
        None
    };
    Ok(
        LaunchRequest {
            cluster,
            task_definition: "github-actions-runner".to_owned(),
            subnet,
            tags,
            cpu: decimal_text(profile.cpu),
            memory: decimal_text(profile.memory),
            ephemeral_storage,
            container: "github-actions-runner".to_owned(),
            container_cpu: profile.cpu,
            container_memory: profile.memory,
            environment,
        },
    )
}

} // verus!
