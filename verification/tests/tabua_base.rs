use tabatu::taxa::UM;
use tabatu::DuracaoEstendida::{Finita, Infinita};
use tabatu::{TabuaBase, Taxa};

fn taxa(v: u64) -> Taxa {
    Taxa::nova(v * 1_000_000)
}

fn criar_tabua_plato() -> TabuaBase {
    TabuaBase::new(vec![taxa(100), taxa(300), taxa(500), taxa(700), taxa(900)])
}

fn criar_tabua_completa() -> TabuaBase {
    TabuaBase::new(vec![taxa(100), taxa(200), taxa(400), taxa(800), taxa(1000)])
}

#[test]
fn quando_idade_maxima_eh_infinita_tempo_futuro_max_eh_infinito() {
    let tabua = criar_tabua_plato();

    assert_eq!(tabua.tempo_futuro_maximo(0), Infinita);
    assert_eq!(tabua.tempo_futuro_maximo(15), Infinita);
    assert_eq!(tabua.tempo_futuro_maximo(100), Infinita);
}

#[test]
fn quando_idade_maxima_nao_eh_infinita_tempo_futuro_max_eh_finito() {
    let tabua = criar_tabua_completa();

    assert_eq!(tabua.tempo_futuro_maximo(0), Finita(5));
    assert_eq!(tabua.tempo_futuro_maximo(3), Finita(2));
    assert_eq!(tabua.tempo_futuro_maximo(100), Finita(0));
}

#[test]
fn qx_eh_igual_a_1_quando_x_mais_t_for_maior_ou_igual_ao_tempo_futuro_max_e_a_tabua_eh_completa() {
    let tabua = criar_tabua_completa();

    assert_eq!(tabua.qx(0, Finita(10)), taxa(1000));
    assert_eq!(tabua.qx(0, Finita(50)), taxa(1000));
    assert_eq!(tabua.qx(0, Finita(100)), taxa(1000));
}

#[test]
fn qx_eh_igual_ao_ultimo_qx_quando_x_mais_t_for_maior_ou_igual_ao_tempo_futuro_max_e_a_tabua_eh_plato() {
    let tabua = criar_tabua_plato();

    assert_eq!(tabua.qx(0, Finita(10)), taxa(900));
    assert_eq!(tabua.qx(0, Finita(50)), taxa(900));
    assert_eq!(tabua.qx(0, Finita(100)), taxa(900));
}

#[test]
fn tpx_eh_igual_a_1_quando_t_for_igual_a_0_plato() {
    let tabua = criar_tabua_plato();

    assert_eq!(tabua.tpx(0, Finita(0)), taxa(1000));
    assert_eq!(tabua.tpx(1, Finita(0)), taxa(1000));
    assert_eq!(tabua.tpx(2, Finita(0)), taxa(1000));
}

#[test]
fn tpx_eh_igual_a_1_quando_t_for_igual_a_0_completo() {
    let tabua = criar_tabua_completa();

    assert_eq!(tabua.tpx(0, Finita(0)), taxa(1000));
    assert_eq!(tabua.tpx(1, Finita(0)), taxa(1000));
    assert_eq!(tabua.tpx(2, Finita(0)), taxa(1000));
}

#[test]
fn tpx_eh_igual_a_0_quando_t_for_maior_ou_igual_ao_tempo_futuro_max_e_a_tabua_completa() {
    let tabua = criar_tabua_completa();
    let tempo_futuro_max = match tabua.tempo_futuro_maximo(3).valor_finito() {
        Some(v) => v,
        None => panic!("x deveria ser finito numa tabua completa"),
    };

    assert_eq!(tabua.tpx(3, Finita(tempo_futuro_max)), taxa(0));
    assert_eq!(tabua.tpx(3, Finita(tempo_futuro_max + 1)), taxa(0));
    assert_eq!(tabua.tpx(3, Finita(tempo_futuro_max + 2)), taxa(0));
}

#[test]
fn tpx_eh_igual_a_zero_quando_x_maior_ou_igual_ao_tempo_futuro_max_t_maior_que_zero_e_tabua_completa() {
    let tabua = criar_tabua_completa();
    match tabua.tempo_futuro_maximo(0).valor_finito() {
        Some(v) => {
            let x = v + 1;
            assert_eq!(tabua.tpx(x, Finita(1)), taxa(0));
            assert_eq!(tabua.tpx(x, Finita(2)), taxa(0));
            assert_eq!(tabua.tpx(x, Finita(3)), taxa(0));
        },
        None => panic!("x deveria ser finito numa tabua completa"),
    }
}

#[test]
fn tpx_termina_com_zero_plato() {
    let tabua = criar_tabua_plato();
    let x = 2;
    let t = Finita(100);

    assert_eq!(tabua.tpx(x, t), taxa(0));
}

#[test]
fn tpx_termina_com_zero_completa() {
    let tabua = criar_tabua_completa();
    let x = 2;
    let t = tabua.tempo_futuro_maximo(0);

    assert_eq!(tabua.tpx(x, t), taxa(0));
}

#[test]
fn t_qx_soma_1_quando_t_sao_todos_os_tempos_futuros_plato() {
    let tabua = criar_tabua_plato();
    let x = 2;
    let limite = 100;

    let mut soma: u64 = 0;
    let mut t: u16 = 0;
    while t <= limite {
        soma += tabua.t_qx(x, Finita(t)).valor();
        t += 1;
    }

    let diferenca = if soma > UM { soma - UM } else { UM - soma };
    assert!(diferenca <= 10_000);
}

#[test]
fn t_qx_soma_1_quando_t_sao_todos_os_tempos_futuros_completa() {
    let tabua = criar_tabua_completa();
    let x = 2;
    let limite = tabua
        .tempo_futuro_maximo(x)
        .valor_finito()
        .expect("Tempo futuro maximo de uma tabua completa deveria ser finito!");

    let mut soma: u64 = 0;
    let mut t: u16 = 0;
    while t <= limite {
        soma += tabua.t_qx(x, Finita(t)).valor();
        t += 1;
    }

    let diferenca = if soma > UM { soma - UM } else { UM - soma };
    assert!(diferenca <= 10_000);
}

#[test]
fn t_qx_eh_igual_a_1_quando_t_eh_zero_e_x_eh_superior_ao_tempo_futuro_maximo_e_tabua_completa() {
    let tabua = criar_tabua_completa();
    let x = tabua
        .tempo_futuro_maximo(0)
        .valor_finito()
        .expect("Tempo futuro maximo de uma tabua completa deveria ser finito!");

    assert_eq!(tabua.t_qx(x - 2, Finita(0)), taxa(800));
    assert_eq!(tabua.t_qx(x, Finita(0)), taxa(1000));
    assert_eq!(tabua.t_qx(x + 2, Finita(0)), taxa(1000));
}

#[test]
fn t_qx_eh_igual_a_0_quando_x_eh_superior_ao_tempo_futuro_max_e_t_eh_maior_que_zero_e_tabua_completa() {
    let tabua = criar_tabua_completa();
    let x = tabua
        .tempo_futuro_maximo(0)
        .valor_finito()
        .expect("Tempo futuro maximo de uma tabua completa deveria ser finito!")
        + 1;

    assert_eq!(tabua.t_qx(x, Finita(1)), taxa(0));
    assert_eq!(tabua.t_qx(x, Finita(2)), taxa(0));
    assert_eq!(tabua.t_qx(x, Finita(3)), taxa(0));
}
