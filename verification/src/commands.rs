//! The slash-command palette: the commands, their sub-commands, and the
//! fuzzy filter that narrows them as the user types.

use vstd::prelude::*;
use crate::text::{unicode_lowercase, to_lowercase, to_chars, is_ws, trim_end, trim_start};

verus! {

#[derive(Debug)]
pub struct CommandDef {
    pub name: String,
    pub description: String,
    pub sub_commands: Vec<SubCommandDef>,
    pub direct_execute: bool,
}

#[derive(Debug)]
pub struct SubCommandDef {
    pub name: String,
    pub description: String,
    pub needs_input: bool,
}

pub ghost struct SubView {
    pub name: Seq<char>,
    pub description: Seq<char>,
    pub needs_input: bool,
}

pub ghost struct CommandView {
    pub name: Seq<char>,
    pub description: Seq<char>,
    pub sub_commands: Seq<SubView>,
    pub direct_execute: bool,
}

impl View for SubCommandDef {
    type V = SubView;

    open spec fn view(&self) -> SubView {
        SubView { name: self.name@, description: self.description@, needs_input: self.needs_input }
    }
}

/// The views of sub-commands.
pub open spec fn subs_view_of(v: Seq<SubCommandDef>) -> Seq<SubView> {
    v.map_values(|s: SubCommandDef| s@)
}

impl View for CommandDef {
    type V = CommandView;

    open spec fn view(&self) -> CommandView {
        CommandView {
            name: self.name@,
            description: self.description@,
            sub_commands: subs_view_of(self.sub_commands@),
            direct_execute: self.direct_execute,
        }
    }
}

/// The views of commands.
pub open spec fn commands_view(v: Seq<CommandDef>) -> Seq<CommandView> {
    v.map_values(|c: CommandDef| c@)
}

pub open spec fn sub_view(name: Seq<char>, description: Seq<char>, needs_input: bool) -> SubView {
    SubView { name, description, needs_input }
}

pub open spec fn simple_view(name: Seq<char>, description: Seq<char>) -> CommandView {
    CommandView { name, description, sub_commands: Seq::empty(), direct_execute: true }
}

pub open spec fn subs_view(name: Seq<char>, description: Seq<char>, subs: Seq<SubView>) -> CommandView {
    CommandView { name, description, sub_commands: subs, direct_execute: false }
}

impl CommandDef {
    /// A command that runs as soon as it is chosen.
    pub fn simple(name: &str, description: &str) -> (r: Self)
        ensures
            r@ == simple_view(name@, description@),
    {
        let r = CommandDef {
            name: String::from_str(name),
            description: String::from_str(description),
            sub_commands: Vec::new(),
            direct_execute: true,
        };
        assert(r@.sub_commands =~= Seq::<SubView>::empty());
        r
    }

    /// A command that asks for one of its sub-commands.
    pub fn with_subs(name: &str, description: &str, subs: Vec<SubCommandDef>) -> (r: Self)
        ensures
            r@ == subs_view(name@, description@, subs_view_of(subs@)),
    {
        CommandDef {
            name: String::from_str(name),
            description: String::from_str(description),
            sub_commands: subs,
            direct_execute: false,
        }
    }

    /// A field-for-field copy.
    pub fn copy(&self) -> (r: Self)
        ensures
            r@ == self@,
    {
        let mut subs: Vec<SubCommandDef> = Vec::new();
        let mut i: usize = 0;
        assert(subs_view_of(subs@) =~= subs_view_of(self.sub_commands@).take(0));
        while i < self.sub_commands.len()
            invariant
                i <= self.sub_commands@.len(),
                subs_view_of(subs@) == subs_view_of(self.sub_commands@).take(i as int),
            decreases self.sub_commands@.len() - i,
        {
            let s = self.sub_commands[i].copy();
            let ghost prev = subs@;
            subs.push(s);
            proof {
                prev.lemma_push_map_commute(|x: SubCommandDef| x@, s);
                assert(subs_view_of(self.sub_commands@).take(i + 1) =~= subs_view_of(self.sub_commands@).take(i as int).push(self.sub_commands@[i as int]@));
            }
            i = i + 1;
        }
        assert(subs_view_of(self.sub_commands@).take(self.sub_commands@.len() as int) =~= subs_view_of(self.sub_commands@));
        CommandDef {
            name: self.name.clone(),
            description: self.description.clone(),
            sub_commands: subs,
            direct_execute: self.direct_execute,
        }
    }
}

impl SubCommandDef {
    /// A sub-command that runs as chosen.
    pub fn new(name: &str, description: &str) -> (r: Self)
        ensures
            r@ == sub_view(name@, description@, false),
    {
        SubCommandDef { name: String::from_str(name), description: String::from_str(description), needs_input: false }
    }

    /// A sub-command that takes an argument typed after it.
    pub fn with_input(name: &str, description: &str) -> (r: Self)
        ensures
            r@ == sub_view(name@, description@, true),
    {
        SubCommandDef { name: String::from_str(name), description: String::from_str(description), needs_input: true }
    }

    /// A field-for-field copy.
    pub fn copy(&self) -> (r: Self)
        ensures
            r@ == self@,
    {
        SubCommandDef { name: self.name.clone(), description: self.description.clone(), needs_input: self.needs_input }
    }
}

/// The first-level commands of the palette, in the order shown.
pub open spec fn level1_commands() -> Seq<CommandView> {
    seq![
        simple_view("/init"@, "轻量初始化项目配置"@),
        simple_view("/init-deep"@, "深度初始化项目配置"@),
        simple_view("/new"@, "创建新会话"@),
        simple_view("/sessions"@, "切换历史会话"@),
        simple_view("/clear"@, "清空当前上下文"@),
        simple_view("/compress"@, "压缩当前会话上下文"@),
        subs_view("/profile"@, "配置管理"@, seq![sub_view("ls"@, "列出所有配置"@, false), sub_view("use"@, "切换当前配置"@, false), sub_view("show"@, "显示当前配置详情"@, false)]),
        subs_view("/plugin"@, "插件管理"@, seq![sub_view("list"@, "列出已安装插件"@, false), sub_view("install"@, "安装插件"@, false), sub_view("remove"@, "删除插件"@, false), sub_view("enable"@, "启用插件"@, false), sub_view("disable"@, "禁用插件"@, false)]),
        subs_view("/checkpoint"@, "检查点管理"@, seq![sub_view("list"@, "列出检查点"@, false), sub_view("save"@, "保存检查点"@, true), sub_view("restore"@, "恢复检查点"@, false), sub_view("delete"@, "删除检查点"@, false)]),
        subs_view("/mode"@, "执行模式"@, seq![sub_view("plan"@, "规划模式"@, false), sub_view("build"@, "构建模式"@, false), sub_view("auto"@, "自动执行模式"@, false)]),
        subs_view("/skills"@, "Skills 管理"@, seq![sub_view("list"@, "列出可用 Skills"@, false), sub_view("show"@, "查看 Skill 详情"@, true), sub_view("run"@, "运行 Skill"@, true), sub_view("add"@, "添加 Skill"@, true), sub_view("remove"@, "删除 Skill"@, true)]),
        subs_view("/mcps"@, "MCP 管理"@, seq![sub_view("list"@, "列出 MCP 服务"@, false), sub_view("show"@, "查看 MCP 详情"@, true), sub_view("remove"@, "删除 MCP 服务"@, true)]),
        simple_view("/providers"@, "管理 Provider"@),
        simple_view("/models"@, "选择模型"@),
        simple_view("/login"@, "配置 Provider 登录"@),
        simple_view("/connect"@, "快速接入 Provider"@),
        simple_view("/add-dir"@, "添加项目可访问目录"@),
        simple_view("/status"@, "查看 MCP 与插件状态"@),
        simple_view("/doctor"@, "诊断当前配置与可用性"@),
        simple_view("/prompt"@, "查看提示词链路与诊断"@),
        simple_view("/diff"@, "查看当前 Git 差异摘要"@),
        simple_view("/hooks"@, "查看运行时 Hook 与生命周期"@),
        simple_view("/ide"@, "查看 IDE 接入向导或配置"@),
        simple_view("/config"@, "交互式管理用户级与项目级配置"@),
        simple_view("/keybindings"@, "查看快捷键说明"@),
        simple_view("/outstyle"@, "切换 AI 输出风格（默认用户级）"@),
        simple_view("/vim"@, "切换 Vim 风格导航"@),
        simple_view("/memory"@, "查看或管理分类项目记忆"@),
        simple_view("/wiki"@, "查看分层知识库加载状态"@),
        simple_view("/insight"@, "生成并打开用户级 insight 网页报告"@),
        simple_view("/tools"@, "显示可用工具"@),
        simple_view("/stats"@, "查看 token 与费用统计"@),
        simple_view("/theme"@, "切换主题模板"@),
        simple_view("/agents"@, "查看内置角色或启动多角色编排"@),
        simple_view("/loop"@, "循环执行任务直到完成"@),
        subs_view("/todo"@, "任务列表管理"@, seq![sub_view("show"@, "显示当前待办"@, false), sub_view("confirm"@, "确认并执行待办"@, false), sub_view("clear"@, "清空待办"@, false)]),
        subs_view("/tasks"@, "持久任务管理"@, seq![sub_view("list"@, "列出所有任务"@, false), sub_view("add"@, "添加新任务"@, true), sub_view("show"@, "查看任务详情"@, true), sub_view("edit"@, "编辑任务描述"@, true), sub_view("start"@, "开始执行任务"@, true), sub_view("done"@, "标记任务完成"@, true), sub_view("cancel"@, "取消任务"@, true), sub_view("clear"@, "清理已完成任务"@, false), sub_view("export"@, "导出任务列表"@, false)]),
        simple_view("/cancel"@, "取消当前任务"@),
        simple_view("/help"@, "显示帮助"@),
        simple_view("/quit"@, "退出"@),
        simple_view("/exit"@, "退出"@),
    ]
}

fn push_sub(v: &mut Vec<SubCommandDef>, s: SubCommandDef)
    ensures
        subs_view_of(final(v)@) == subs_view_of(old(v)@).push(s@),
{
    let ghost prev = v@;
    v.push(s);
    proof {
        prev.lemma_push_map_commute(|x: SubCommandDef| x@, s);
    }
}

fn push_command(v: &mut Vec<CommandDef>, c: CommandDef)
    ensures
        commands_view(final(v)@) == commands_view(old(v)@).push(c@),
{
    let ghost prev = v@;
    v.push(c);
    proof {
        prev.lemma_push_map_commute(|x: CommandDef| x@, c);
    }
}

/// The first-level commands of the palette.
#[verifier::rlimit(100)]
pub fn get_level1_commands() -> (r: Vec<CommandDef>)
    ensures
        commands_view(r@) == level1_commands(),
{
    let mut v: Vec<CommandDef> = Vec::new();
    assert(commands_view(v@) =~= Seq::<CommandView>::empty());
    push_command(&mut v, CommandDef::simple("/init", "轻量初始化项目配置"));
    push_command(&mut v, CommandDef::simple("/init-deep", "深度初始化项目配置"));
    push_command(&mut v, CommandDef::simple("/new", "创建新会话"));
    push_command(&mut v, CommandDef::simple("/sessions", "切换历史会话"));
    push_command(&mut v, CommandDef::simple("/clear", "清空当前上下文"));
    push_command(&mut v, CommandDef::simple("/compress", "压缩当前会话上下文"));
    let mut subs: Vec<SubCommandDef> = Vec::new();
    push_sub(&mut subs, SubCommandDef::new("ls", "列出所有配置"));
    push_sub(&mut subs, SubCommandDef::new("use", "切换当前配置"));
    push_sub(&mut subs, SubCommandDef::new("show", "显示当前配置详情"));
    assert(subs_view_of(subs@) =~= seq![sub_view("ls"@, "列出所有配置"@, false), sub_view("use"@, "切换当前配置"@, false), sub_view("show"@, "显示当前配置详情"@, false)]);
    push_command(&mut v, CommandDef::with_subs("/profile", "配置管理", subs));
    let mut subs: Vec<SubCommandDef> = Vec::new();
    push_sub(&mut subs, SubCommandDef::new("list", "列出已安装插件"));
    push_sub(&mut subs, SubCommandDef::new("install", "安装插件"));
    push_sub(&mut subs, SubCommandDef::new("remove", "删除插件"));
    push_sub(&mut subs, SubCommandDef::new("enable", "启用插件"));
    push_sub(&mut subs, SubCommandDef::new("disable", "禁用插件"));
    assert(subs_view_of(subs@) =~= seq![sub_view("list"@, "列出已安装插件"@, false), sub_view("install"@, "安装插件"@, false), sub_view("remove"@, "删除插件"@, false), sub_view("enable"@, "启用插件"@, false), sub_view("disable"@, "禁用插件"@, false)]);
    push_command(&mut v, CommandDef::with_subs("/plugin", "插件管理", subs));
    let mut subs: Vec<SubCommandDef> = Vec::new();
    push_sub(&mut subs, SubCommandDef::new("list", "列出检查点"));
    push_sub(&mut subs, SubCommandDef::with_input("save", "保存检查点"));
    push_sub(&mut subs, SubCommandDef::new("restore", "恢复检查点"));
    push_sub(&mut subs, SubCommandDef::new("delete", "删除检查点"));
    assert(subs_view_of(subs@) =~= seq![sub_view("list"@, "列出检查点"@, false), sub_view("save"@, "保存检查点"@, true), sub_view("restore"@, "恢复检查点"@, false), sub_view("delete"@, "删除检查点"@, false)]);
    push_command(&mut v, CommandDef::with_subs("/checkpoint", "检查点管理", subs));
    let mut subs: Vec<SubCommandDef> = Vec::new();
    push_sub(&mut subs, SubCommandDef::new("plan", "规划模式"));
    push_sub(&mut subs, SubCommandDef::new("build", "构建模式"));
    push_sub(&mut subs, SubCommandDef::new("auto", "自动执行模式"));
    assert(subs_view_of(subs@) =~= seq![sub_view("plan"@, "规划模式"@, false), sub_view("build"@, "构建模式"@, false), sub_view("auto"@, "自动执行模式"@, false)]);
    push_command(&mut v, CommandDef::with_subs("/mode", "执行模式", subs));
    let mut subs: Vec<SubCommandDef> = Vec::new();
    push_sub(&mut subs, SubCommandDef::new("list", "列出可用 Skills"));
    push_sub(&mut subs, SubCommandDef::with_input("show", "查看 Skill 详情"));
    push_sub(&mut subs, SubCommandDef::with_input("run", "运行 Skill"));
    push_sub(&mut subs, SubCommandDef::with_input("add", "添加 Skill"));
    push_sub(&mut subs, SubCommandDef::with_input("remove", "删除 Skill"));
    assert(subs_view_of(subs@) =~= seq![sub_view("list"@, "列出可用 Skills"@, false), sub_view("show"@, "查看 Skill 详情"@, true), sub_view("run"@, "运行 Skill"@, true), sub_view("add"@, "添加 Skill"@, true), sub_view("remove"@, "删除 Skill"@, true)]);
    push_command(&mut v, CommandDef::with_subs("/skills", "Skills 管理", subs));
    let mut subs: Vec<SubCommandDef> = Vec::new();
    push_sub(&mut subs, SubCommandDef::new("list", "列出 MCP 服务"));
    push_sub(&mut subs, SubCommandDef::with_input("show", "查看 MCP 详情"));
    push_sub(&mut subs, SubCommandDef::with_input("remove", "删除 MCP 服务"));
    assert(subs_view_of(subs@) =~= seq![sub_view("list"@, "列出 MCP 服务"@, false), sub_view("show"@, "查看 MCP 详情"@, true), sub_view("remove"@, "删除 MCP 服务"@, true)]);
    push_command(&mut v, CommandDef::with_subs("/mcps", "MCP 管理", subs));
    push_command(&mut v, CommandDef::simple("/providers", "管理 Provider"));
    push_command(&mut v, CommandDef::simple("/models", "选择模型"));
    push_command(&mut v, CommandDef::simple("/login", "配置 Provider 登录"));
    push_command(&mut v, CommandDef::simple("/connect", "快速接入 Provider"));
    push_command(&mut v, CommandDef::simple("/add-dir", "添加项目可访问目录"));
    push_command(&mut v, CommandDef::simple("/status", "查看 MCP 与插件状态"));
    push_command(&mut v, CommandDef::simple("/doctor", "诊断当前配置与可用性"));
    push_command(&mut v, CommandDef::simple("/prompt", "查看提示词链路与诊断"));
    push_command(&mut v, CommandDef::simple("/diff", "查看当前 Git 差异摘要"));
    push_command(&mut v, CommandDef::simple("/hooks", "查看运行时 Hook 与生命周期"));
    push_command(&mut v, CommandDef::simple("/ide", "查看 IDE 接入向导或配置"));
    push_command(&mut v, CommandDef::simple("/config", "交互式管理用户级与项目级配置"));
    push_command(&mut v, CommandDef::simple("/keybindings", "查看快捷键说明"));
    push_command(&mut v, CommandDef::simple("/outstyle", "切换 AI 输出风格（默认用户级）"));
    push_command(&mut v, CommandDef::simple("/vim", "切换 Vim 风格导航"));
    push_command(&mut v, CommandDef::simple("/memory", "查看或管理分类项目记忆"));
    push_command(&mut v, CommandDef::simple("/wiki", "查看分层知识库加载状态"));
    push_command(&mut v, CommandDef::simple("/insight", "生成并打开用户级 insight 网页报告"));
    push_command(&mut v, CommandDef::simple("/tools", "显示可用工具"));
    push_command(&mut v, CommandDef::simple("/stats", "查看 token 与费用统计"));
    push_command(&mut v, CommandDef::simple("/theme", "切换主题模板"));
    push_command(&mut v, CommandDef::simple("/agents", "查看内置角色或启动多角色编排"));
    push_command(&mut v, CommandDef::simple("/loop", "循环执行任务直到完成"));
    let mut subs: Vec<SubCommandDef> = Vec::new();
    push_sub(&mut subs, SubCommandDef::new("show", "显示当前待办"));
    push_sub(&mut subs, SubCommandDef::new("confirm", "确认并执行待办"));
    push_sub(&mut subs, SubCommandDef::new("clear", "清空待办"));
    assert(subs_view_of(subs@) =~= seq![sub_view("show"@, "显示当前待办"@, false), sub_view("confirm"@, "确认并执行待办"@, false), sub_view("clear"@, "清空待办"@, false)]);
    push_command(&mut v, CommandDef::with_subs("/todo", "任务列表管理", subs));
    let mut subs: Vec<SubCommandDef> = Vec::new();
    push_sub(&mut subs, SubCommandDef::new("list", "列出所有任务"));
    push_sub(&mut subs, SubCommandDef::with_input("add", "添加新任务"));
    push_sub(&mut subs, SubCommandDef::with_input("show", "查看任务详情"));
    push_sub(&mut subs, SubCommandDef::with_input("edit", "编辑任务描述"));
    push_sub(&mut subs, SubCommandDef::with_input("start", "开始执行任务"));
    push_sub(&mut subs, SubCommandDef::with_input("done", "标记任务完成"));
    push_sub(&mut subs, SubCommandDef::with_input("cancel", "取消任务"));
    push_sub(&mut subs, SubCommandDef::new("clear", "清理已完成任务"));
    push_sub(&mut subs, SubCommandDef::new("export", "导出任务列表"));
    assert(subs_view_of(subs@) =~= seq![sub_view("list"@, "列出所有任务"@, false), sub_view("add"@, "添加新任务"@, true), sub_view("show"@, "查看任务详情"@, true), sub_view("edit"@, "编辑任务描述"@, true), sub_view("start"@, "开始执行任务"@, true), sub_view("done"@, "标记任务完成"@, true), sub_view("cancel"@, "取消任务"@, true), sub_view("clear"@, "清理已完成任务"@, false), sub_view("export"@, "导出任务列表"@, false)]);
    push_command(&mut v, CommandDef::with_subs("/tasks", "持久任务管理", subs));
    push_command(&mut v, CommandDef::simple("/cancel", "取消当前任务"));
    push_command(&mut v, CommandDef::simple("/help", "显示帮助"));
    push_command(&mut v, CommandDef::simple("/quit", "退出"));
    push_command(&mut v, CommandDef::simple("/exit", "退出"));
    assert(commands_view(v@) =~= level1_commands());
    v
}

// ---------------------------------------------------------------------
// Fuzzy filtering
// ---------------------------------------------------------------------

/// `query` matches `target` when its characters occur in `target` in order
/// (greedily, leftmost first).
pub open spec fn fuzzy(query: Seq<char>, target: Seq<char>) -> bool
    decreases target.len(),
{
    if query.len() == 0 {
        true
    } else if target.len() == 0 {
        false
    } else if query[0] == target[0] {
        fuzzy(query.drop_first(), target.drop_first())
    } else {
        fuzzy(query, target.drop_first())
    }
}

/// Whether the characters of `query` occur in `target` in order.
pub fn fuzzy_match(query: &str, target: &str) -> (r: bool)
    ensures
        r == fuzzy(query@, target@),
{
    let q = to_chars(query);
    let t = to_chars(target);
    if q.len() == 0 {
        return true;
    }
    let mut qi: usize = 0;
    let mut ti: usize = 0;
    assert(q@.skip(0) =~= q@);
    assert(t@.skip(0) =~= t@);
    while qi < q.len() && ti < t.len()
        invariant
            qi <= q@.len(),
            ti <= t@.len(),
            q@ == query@,
            t@ == target@,
            fuzzy(query@, target@) == fuzzy(q@.skip(qi as int), t@.skip(ti as int)),
        decreases t@.len() - ti,
    {
        assert(q@.skip(qi as int)[0] == q@[qi as int]);
        assert(t@.skip(ti as int)[0] == t@[ti as int]);
        assert(t@.skip(ti as int).drop_first() =~= t@.skip(ti + 1));
        if q[qi] == t[ti] {
            assert(q@.skip(qi as int).drop_first() =~= q@.skip(qi + 1));
            qi = qi + 1;
        }
        ti = ti + 1;
    }
    if qi == q.len() {
        assert(q@.skip(qi as int).len() == 0);
    }
    qi == q.len()
}

/// `s.trim_start_matches('/')`.
pub open spec fn strip_leading_slashes(s: Seq<char>) -> Seq<char>
    decreases s.len(),
{
    if s.len() > 0 && s[0] == '/' {
        strip_leading_slashes(s.drop_first())
    } else {
        s
    }
}

fn strip_leading_slashes_str(s: &str) -> (r: String)
    ensures
        r@ == strip_leading_slashes(s@),
{
    let c = to_chars(s);
    let mut i: usize = 0;
    assert(c@.skip(0) =~= c@);
    while i < c.len() && c[i] == '/'
        invariant
            i <= c@.len(),
            strip_leading_slashes(c@) == strip_leading_slashes(c@.skip(i as int)),
            c@ == s@,
        decreases c@.len() - i,
    {
        assert(c@.skip(i as int).drop_first() =~= c@.skip(i + 1));
        i = i + 1;
    }
    let rest = crate::text::slice_chars(&c, i, c.len());
    assert(rest@ =~= c@.skip(i as int));
    crate::text::from_chars(&rest)
}

/// A command is kept when the query matches its lowercased name or
/// description.
pub open spec fn command_kept(query: Seq<char>, c: CommandView) -> bool {
    fuzzy(query, unicode_lowercase(c.name)) || fuzzy(query, unicode_lowercase(c.description))
}

/// The commands the query keeps, in order.
pub open spec fn filter_commands(query: Seq<char>, s: Seq<CommandView>) -> Seq<CommandView>
    decreases s.len(),
{
    if s.len() == 0 {
        s
    } else if command_kept(query, s.last()) {
        filter_commands(query, s.drop_last()).push(s.last())
    } else {
        filter_commands(query, s.drop_last())
    }
}

/// The query typed after `/`, lowercased.
pub open spec fn level1_query(input: Seq<char>) -> Seq<char> {
    unicode_lowercase(strip_leading_slashes(input))
}

/// The first-level commands matching what was typed (all of them for an
/// empty query).
pub fn filter_level1_commands(commands: &Vec<CommandDef>, input: &str) -> (r: Vec<CommandDef>)
    ensures
        commands_view(r@) == if level1_query(input@).len() == 0 {
            commands_view(commands@)
        } else {
            filter_commands(level1_query(input@), commands_view(commands@))
        },
{
    let stripped = strip_leading_slashes_str(input);
    let query = to_lowercase(stripped.as_str());
    let ghost all = commands_view(commands@);
    let keep_all = query.as_str().unicode_len() == 0;
    let mut out: Vec<CommandDef> = Vec::new();
    let mut i: usize = 0;
    assert(all.take(0) =~= Seq::<CommandView>::empty());
    assert(commands_view(out@) =~= Seq::<CommandView>::empty());
    while i < commands.len()
        invariant
            i <= commands@.len(),
            all == commands_view(commands@),
            query@ == level1_query(input@),
            keep_all == (query@.len() == 0),
            commands_view(out@) == if keep_all { all.take(i as int) } else { filter_commands(query@, all.take(i as int)) },
        decreases commands@.len() - i,
    {
        assert(all.take(i + 1).drop_last() =~= all.take(i as int));
        assert(all.take(i + 1).last() == commands@[i as int]@);
        let c = &commands[i];
        let keep = keep_all || {
            let name = to_lowercase(c.name.as_str());
            let desc = to_lowercase(c.description.as_str());
            fuzzy_match(query.as_str(), name.as_str()) || fuzzy_match(query.as_str(), desc.as_str())
        };
        if keep {
            push_command(&mut out, c.copy());
        }
        proof {
            if keep_all {
                assert(all.take(i + 1) =~= all.take(i as int).push(all[i as int]));
            }
        }
        i = i + 1;
    }
    assert(all.take(all.len() as int) =~= all);
    out
}

/// The last whitespace-separated word (`split_whitespace().last()`), or
/// nothing.
pub open spec fn last_word(s: Seq<char>) -> Seq<char> {
    trailing_word(trim_end(s))
}

/// The characters after the last whitespace.
pub open spec fn trailing_word(s: Seq<char>) -> Seq<char>
    decreases s.len(),
{
    if s.len() > 0 && !is_ws(s.last()) {
        trailing_word(s.drop_last()).push(s.last())
    } else {
        Seq::empty()
    }
}

/// A sub-command is kept when the query matches its lowercased name or
/// description.
pub open spec fn sub_kept(query: Seq<char>, c: SubView) -> bool {
    fuzzy(query, unicode_lowercase(c.name)) || fuzzy(query, unicode_lowercase(c.description))
}

/// The sub-commands the query keeps, in order.
pub open spec fn filter_subs(query: Seq<char>, s: Seq<SubView>) -> Seq<SubView>
    decreases s.len(),
{
    if s.len() == 0 {
        s
    } else if sub_kept(query, s.last()) {
        filter_subs(query, s.drop_last()).push(s.last())
    } else {
        filter_subs(query, s.drop_last())
    }
}

fn last_word_of(s: &str) -> (r: String)
    ensures
        r@ == last_word(s@),
{
    let c = to_chars(s);
    let mut end: usize = c.len();
    assert(c@.take(end as int) =~= c@);
    while end > 0 && crate::text::is_whitespace(c[end - 1])
        invariant
            end <= c@.len(),
            c@ == s@,
            trim_end(c@) == trim_end(c@.take(end as int)),
        decreases end,
    {
        assert(c@.take(end as int).drop_last() =~= c@.take(end - 1));
        end = end - 1;
    }
    let ghost te = c@.take(end as int);
    assert(trim_end(te) == te);
    let mut start: usize = end;
    assert(te.take(start as int) =~= te);
    assert(trailing_word(te) == trailing_word(te.take(start as int)) + te.subrange(start as int, end as int));
    while start > 0 && !crate::text::is_whitespace(c[start - 1])
        invariant
            start <= end <= c@.len(),
            te == c@.take(end as int),
            trailing_word(te) == trailing_word(te.take(start as int)) + te.subrange(start as int, end as int),
        decreases start,
    {
        assert(te.take(start as int).drop_last() =~= te.take(start - 1));
        assert(te.take(start as int).last() == c@[start - 1]);
        assert(te.subrange(start - 1, end as int) =~= seq![c@[start - 1]] + te.subrange(start as int, end as int));
        start = start - 1;
    }
    let word = crate::text::slice_chars(&c, start, end);
    assert(word@ =~= te.subrange(start as int, end as int));
    proof {
        if start > 0 {
            assert(te.take(start as int).last() == c@[start - 1]);
        }
        assert(trailing_word(te.take(start as int)) =~= Seq::<char>::empty());
    }
    crate::text::from_chars(&word)
}

/// The sub-commands matching the last word typed (all of them when there is
/// none).
pub fn filter_sub_commands(level1: &CommandDef, input: &str) -> (r: Vec<SubCommandDef>)
    ensures
        ({
            let q = unicode_lowercase(last_word(input@));
            subs_view_of(r@) == if q.len() == 0 {
                level1@.sub_commands
            } else {
                filter_subs(q, level1@.sub_commands)
            }
        }),
{
    let word = last_word_of(input);
    let query = to_lowercase(word.as_str());
    let subs = &level1.sub_commands;
    let ghost all = subs_view_of(subs@);
    let keep_all = query.as_str().unicode_len() == 0;
    let mut out: Vec<SubCommandDef> = Vec::new();
    let mut i: usize = 0;
    assert(all.take(0) =~= Seq::<SubView>::empty());
    assert(subs_view_of(out@) =~= Seq::<SubView>::empty());
    while i < subs.len()
        invariant
            i <= subs@.len(),
            all == subs_view_of(subs@),
            keep_all == (query@.len() == 0),
            subs_view_of(out@) == if keep_all { all.take(i as int) } else { filter_subs(query@, all.take(i as int)) },
        decreases subs@.len() - i,
    {
        assert(all.take(i + 1).drop_last() =~= all.take(i as int));
        assert(all.take(i + 1).last() == subs@[i as int]@);
        let c = &subs[i];
        let keep = keep_all || {
            let name = to_lowercase(c.name.as_str());
            let desc = to_lowercase(c.description.as_str());
            fuzzy_match(query.as_str(), name.as_str()) || fuzzy_match(query.as_str(), desc.as_str())
        };
        if keep {
            push_sub(&mut out, c.copy());
        }
        proof {
            if keep_all {
                assert(all.take(i + 1) =~= all.take(i as int).push(all[i as int]));
            }
        }
        i = i + 1;
    }
    assert(all.take(all.len() as int) =~= all);
    out
}

// ---------------------------------------------------------------------
// Durations
// ---------------------------------------------------------------------

/// How a duration in milliseconds is shown: whole minutes and seconds from a
/// minute on, seconds with one decimal from a second on, milliseconds below.
#[derive(Debug, Clone, Copy, PartialEq, Eq, Structural)]
pub enum DurationDisplay {
    MinutesSeconds(u64, u64),
    Seconds(u64),
    Millis(u64),
}

/// The display form of a duration.
pub fn duration_display(ms: u64) -> (r: DurationDisplay)
    ensures
        r == if ms >= 60000 {
            DurationDisplay::MinutesSeconds(ms / 60000, (ms % 60000) / 1000)
        } else if ms >= 1000 {
            DurationDisplay::Seconds(ms)
        } else {
            DurationDisplay::Millis(ms)
        },
{
    if ms >= 60000 {
        DurationDisplay::MinutesSeconds(ms / 60000, (ms % 60000) / 1000)
    } else if ms >= 1000 {
        DurationDisplay::Seconds(ms)
    } else {
        DurationDisplay::Millis(ms)
    }
}


// ---------------------------------------------------------------------
// Tab completion
// ---------------------------------------------------------------------

/// What Tab does to the highlighted command.
#[derive(Debug, Clone, Copy, PartialEq, Eq, Structural)]
pub enum CommandCompletion {
    /// The command runs at once.
    Execute,
    /// The line becomes the command and a blank; its sub-commands open.
    OpenSubCommands,
    /// The line becomes the command.
    NameOnly,
}

/// Tab on a command: the line becomes its name; a command that runs
/// directly runs, one with sub-commands opens them.
pub fn complete_command(cmd: &CommandDef) -> (r: (String, CommandCompletion))
    ensures
        r.1 == (if cmd.direct_execute {
            CommandCompletion::Execute
        } else if cmd.sub_commands@.len() > 0 {
            CommandCompletion::OpenSubCommands
        } else {
            CommandCompletion::NameOnly
        }),
        r.0@ == (if r.1 == CommandCompletion::OpenSubCommands {
            cmd.name@ + " "@
        } else {
            cmd.name@
        }),
{
    let mut line = cmd.name.clone();
    if cmd.direct_execute {
        (line, CommandCompletion::Execute)
    } else if cmd.sub_commands.len() > 0 {
        line.append(" ");
        (line, CommandCompletion::OpenSubCommands)
    } else {
        (line, CommandCompletion::NameOnly)
    }
}

/// The characters up to the first whitespace.
pub open spec fn leading_word(s: Seq<char>) -> Seq<char>
    decreases s.len(),
{
    if s.len() > 0 && !is_ws(s[0]) {
        seq![s[0]] + leading_word(s.drop_first())
    } else {
        Seq::empty()
    }
}

/// The first whitespace-separated word.
pub open spec fn first_word(s: Seq<char>) -> Seq<char> {
    leading_word(trim_start(s))
}

/// The line has at least two whitespace-separated words.
pub open spec fn has_second_word(s: Seq<char>) -> bool {
    trim_start(trim_start(s).skip(first_word(s).len() as int)).len() > 0
}

/// The line after Tab on a sub-command: the command word, the sub-command
/// and, when it takes an argument, a blank; only once the line already has
/// two words.
pub open spec fn completed_sub(line: Seq<char>, sub: Seq<char>, needs_input: bool) -> Option<Seq<char>> {
    if has_second_word(line) {
        Some(first_word(line) + " "@ + sub + if needs_input { " "@ } else { Seq::<char>::empty() })
    } else {
        None
    }
}

proof fn lemma_skip_ws_step(s: Seq<char>, i: int)
    requires
        0 <= i < s.len(),
        is_ws(s[i]),
    ensures
        trim_start(s.skip(i)) == trim_start(s.skip(i + 1)),
{
    assert(s.skip(i).drop_first() =~= s.skip(i + 1));
}

/// The index of the first non-whitespace character from `from` on.
fn skip_ws(s: &[char], from: usize) -> (r: usize)
    requires
        from <= s@.len(),
    ensures
        from <= r <= s@.len(),
        trim_start(s@.skip(from as int)) == s@.skip(r as int),
{
    let mut i = from;
    while i < s.len() && crate::text::is_whitespace(s[i])
        invariant
            from <= i <= s@.len(),
            trim_start(s@.skip(from as int)) == trim_start(s@.skip(i as int)),
        decreases s@.len() - i,
    {
        proof {
            lemma_skip_ws_step(s@, i as int);
        }
        i = i + 1;
    }
    proof {
        if i < s@.len() {
            assert(s@.skip(i as int)[0] == s@[i as int]);
        }
    }
    i
}

proof fn lemma_leading_word_step(s: Seq<char>, from: int, i: int)
    requires
        0 <= from <= i < s.len(),
        !is_ws(s[i]),
        leading_word(s.skip(from)) == s.subrange(from, i) + leading_word(s.skip(i)),
    ensures
        leading_word(s.skip(from)) == s.subrange(from, i + 1) + leading_word(s.skip(i + 1)),
{
    assert(s.skip(i).drop_first() =~= s.skip(i + 1));
    assert(s.skip(i)[0] == s[i]);
    assert(s.subrange(from, i + 1) =~= s.subrange(from, i) + seq![s[i]]);
}

/// The index just past the word that starts at `from`.
fn word_end(s: &[char], from: usize) -> (r: usize)
    requires
        from <= s@.len(),
    ensures
        from <= r <= s@.len(),
        leading_word(s@.skip(from as int)) == s@.subrange(from as int, r as int),
{
    let mut i = from;
    assert(s@.subrange(from as int, from as int) =~= Seq::<char>::empty());
    while i < s.len() && !crate::text::is_whitespace(s[i])
        invariant
            from <= i <= s@.len(),
            leading_word(s@.skip(from as int)) == s@.subrange(from as int, i as int) + leading_word(
                s@.skip(i as int),
            ),
        decreases s@.len() - i,
    {
        proof {
            lemma_leading_word_step(s@, from as int, i as int);
        }
        i = i + 1;
    }
    proof {
        if i < s@.len() {
            assert(s@.skip(i as int)[0] == s@[i as int]);
        }
        assert(leading_word(s@.skip(i as int)) =~= Seq::<char>::empty());
        assert(s@.subrange(from as int, i as int) + Seq::<char>::empty() =~= s@.subrange(from as int, i as int));
    }
    i
}

/// Executable `completed_sub`.
pub fn complete_sub_command(line: &str, sub: &SubCommandDef) -> (r: Option<String>)
    ensures
        crate::task_store::opt_view(r) == completed_sub(line@, sub.name@, sub.needs_input),
{
    let c = to_chars(line);
    assert(c@.skip(0) =~= c@);
    let a = skip_ws(c.as_slice(), 0);
    let b = word_end(c.as_slice(), a);
    let d = skip_ws(c.as_slice(), b);
    proof {
        let t = trim_start(line@);
        assert(t == c@.skip(a as int));
        assert(first_word(line@) == c@.subrange(a as int, b as int));
        assert(t.skip(first_word(line@).len() as int) =~= c@.skip(b as int));
    }
    if d < c.len() {
        let w = crate::text::slice_chars(c.as_slice(), a, b);
        let mut out = crate::text::from_chars(w.as_slice());
        out.append(" ");
        out.append(sub.name.as_str());
        if sub.needs_input {
            out.append(" ");
        } else {
            assert(out@ + Seq::<char>::empty() =~= out@);
        }
        Some(out)
    } else {
        None
    }
}

/// The palette's filter keeps every command whose lowercased name or
/// lowercased description holds the query's characters in order, and keeps
/// nothing else: each command it keeps is one of the list's and matches so.
pub proof fn law_filter_keeps_name_and_description_matches(query: Seq<char>, s: Seq<CommandView>)
    ensures
        forall|k: int|
            0 <= k < s.len() && (fuzzy(query, unicode_lowercase(s[k].name)) || fuzzy(
                query,
                unicode_lowercase(s[k].description),
            )) ==> #[trigger] filter_commands(query, s).contains(s[k]),
        forall|i: int|
            0 <= i < filter_commands(query, s).len() ==> s.contains(#[trigger] filter_commands(query, s)[i]) && (
            fuzzy(query, unicode_lowercase(filter_commands(query, s)[i].name)) || fuzzy(
                query,
                unicode_lowercase(filter_commands(query, s)[i].description),
            )),
    decreases s.len(),
{
    if s.len() > 0 {
        let t = s.drop_last();
        law_filter_keeps_name_and_description_matches(query, t);
        let ft = filter_commands(query, t);
        let x = s.last();
        assert forall|k: int|
            0 <= k < s.len() && (fuzzy(query, unicode_lowercase(s[k].name)) || fuzzy(
                query,
                unicode_lowercase(s[k].description),
            )) implies #[trigger] filter_commands(query, s).contains(s[k]) by {
            if k == s.len() - 1 {
                assert(filter_commands(query, s) == ft.push(x));
                assert(ft.push(x)[ft.len() as int] == x);
            } else {
                assert(t[k] == s[k]);
                assert(ft.contains(t[k]));
                let m = choose|m: int| 0 <= m < ft.len() && ft[m] == t[k];
                if command_kept(query, x) {
                    assert(ft.push(x)[m] == ft[m]);
                }
            }
        }
        assert forall|i: int| 0 <= i < filter_commands(query, s).len() implies s.contains(
            #[trigger] filter_commands(query, s)[i],
        ) && (fuzzy(query, unicode_lowercase(filter_commands(query, s)[i].name)) || fuzzy(
            query,
            unicode_lowercase(filter_commands(query, s)[i].description),
        )) by {
            let y = filter_commands(query, s)[i];
            if command_kept(query, x) && i == ft.len() {
                assert(s[s.len() - 1] == y);
            } else {
                if command_kept(query, x) {
                    assert(ft.push(x)[i] == ft[i]);
                }
                assert(ft[i] == y);
                let m = choose|m: int| 0 <= m < t.len() && t[m] == y;
                assert(s[m] == y);
            }
        }
    }
}

} // verus!
