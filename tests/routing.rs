use do_me::action::{Action, ComponentId};
use do_me::structs::{AddTask, TaskSorter};

#[test]
fn routes_follow_the_table() {
    assert_eq!(Action::AddTask(AddTask::default()).get_target(), ComponentId::DatabaseSetTasks);
    assert_eq!(Action::RemoveWorkspace(1).get_target(), ComponentId::DatabaseSetWorkspaces);
    assert_eq!(Action::RequestTasksData(1).get_target(), ComponentId::DatabaseGet);
    assert_eq!(Action::RequestWorkspacesData.get_target(), ComponentId::DatabaseGet);
    assert_eq!(Action::NewTasksData(vec![], 1).get_target(), ComponentId::Tasks);
    assert_eq!(Action::HighlightWorkspace("x".into()).get_target(), ComponentId::Workspaces);
    assert_eq!(Action::SortTasks(TaskSorter::default()).get_target(), ComponentId::Tasks);
    assert_eq!(Action::SetupSortMenu(ComponentId::Tasks).get_target(), ComponentId::SortMenu);
    assert_eq!(Action::GoDown.get_target(), ComponentId::Focused);
    assert_eq!(Action::Select.get_target(), ComponentId::Focused);
    assert_eq!(Action::Tick.get_target(), ComponentId::All);
    assert_eq!(Action::Resize(3, 4).get_target(), ComponentId::All);
    assert_eq!(Action::OpenSortMenu.get_target(), ComponentId::All);
}
